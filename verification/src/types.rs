//! Domain types for the registry: codebases, projects, tasks and agents.
//!
//! Filesystem paths are held as plain strings and timestamps as Unix seconds,
//! so every field is a value the contracts can speak about directly.

use vstd::prelude::*;

verus! {

/// A strongly-typed name for a codebase entry in the registry.
#[derive(Debug, Clone)]
pub struct CodebaseName(pub String);

impl PartialEq for CodebaseName {
    fn eq(&self, other: &CodebaseName) -> (r: bool) {
        self.0 == other.0
    }
}

impl vstd::std_specs::cmp::PartialEqSpecImpl for CodebaseName {
    open spec fn obeys_eq_spec() -> bool {
        true
    }

    open spec fn eq_spec(&self, other: &CodebaseName) -> bool {
        self.0@ == other.0@
    }
}

impl From<String> for CodebaseName {
    fn from(s: String) -> (r: Self) {
        CodebaseName(s)
    }
}

impl From<&str> for CodebaseName {
    fn from(s: &str) -> (r: Self) {
        CodebaseName(s.to_owned())
    }
}

impl vstd::std_specs::convert::FromSpecImpl<&str> for CodebaseName {
    open spec fn obeys_from_spec() -> bool {
        false
    }

    open spec fn from_spec(s: &str) -> Self {
        CodebaseName(arbitrary())
    }
}

impl vstd::std_specs::convert::FromSpecImpl<String> for CodebaseName {
    open spec fn obeys_from_spec() -> bool {
        true
    }

    open spec fn from_spec(s: String) -> Self {
        CodebaseName(s)
    }
}

impl CodebaseName {
    /// The name as a plain string.
    pub fn to_string(&self) -> (r: String)
        ensures
            r@ == self.0@,
    {
        self.0.clone()
    }
}

/// A strongly-typed name for a project inside a codebase.
#[derive(Debug, Clone)]
pub struct ProjectName(pub String);

impl PartialEq for ProjectName {
    fn eq(&self, other: &ProjectName) -> (r: bool) {
        self.0 == other.0
    }
}

impl vstd::std_specs::cmp::PartialEqSpecImpl for ProjectName {
    open spec fn obeys_eq_spec() -> bool {
        true
    }

    open spec fn eq_spec(&self, other: &ProjectName) -> bool {
        self.0@ == other.0@
    }
}

impl From<String> for ProjectName {
    fn from(s: String) -> (r: Self) {
        ProjectName(s)
    }
}

impl From<&str> for ProjectName {
    fn from(s: &str) -> (r: Self) {
        ProjectName(s.to_owned())
    }
}

impl vstd::std_specs::convert::FromSpecImpl<&str> for ProjectName {
    open spec fn obeys_from_spec() -> bool {
        false
    }

    open spec fn from_spec(s: &str) -> Self {
        ProjectName(arbitrary())
    }
}

impl vstd::std_specs::convert::FromSpecImpl<String> for ProjectName {
    open spec fn obeys_from_spec() -> bool {
        true
    }

    open spec fn from_spec(s: String) -> Self {
        ProjectName(s)
    }
}

impl ProjectName {
    /// The name as a plain string.
    pub fn to_string(&self) -> (r: String)
        ensures
            r@ == self.0@,
    {
        self.0.clone()
    }
}

/// A strongly-typed identifier for an agent task.
#[derive(Debug, Clone)]
pub struct TaskId(pub String);

impl PartialEq for TaskId {
    fn eq(&self, other: &TaskId) -> (r: bool) {
        self.0 == other.0
    }
}

impl vstd::std_specs::cmp::PartialEqSpecImpl for TaskId {
    open spec fn obeys_eq_spec() -> bool {
        true
    }

    open spec fn eq_spec(&self, other: &TaskId) -> bool {
        self.0@ == other.0@
    }
}

impl From<String> for TaskId {
    fn from(s: String) -> (r: Self) {
        TaskId(s)
    }
}

impl From<&str> for TaskId {
    fn from(s: &str) -> (r: Self) {
        TaskId(s.to_owned())
    }
}

impl vstd::std_specs::convert::FromSpecImpl<&str> for TaskId {
    open spec fn obeys_from_spec() -> bool {
        false
    }

    open spec fn from_spec(s: &str) -> Self {
        TaskId(arbitrary())
    }
}

impl vstd::std_specs::convert::FromSpecImpl<String> for TaskId {
    open spec fn obeys_from_spec() -> bool {
        true
    }

    open spec fn from_spec(s: String) -> Self {
        TaskId(s)
    }
}

impl TaskId {
    /// The identifier as a plain string.
    pub fn to_string(&self) -> (r: String)
        ensures
            r@ == self.0@,
    {
        self.0.clone()
    }
}

/// The category of a codebase project.
#[derive(Debug, Clone, Copy, PartialEq, Eq, Structural)]
pub enum ProjectType {
    Backend,
    Frontend,
    Mobile,
    Ml,
}

impl Default for ProjectType {
    fn default() -> (r: Self)
        ensures
            r == ProjectType::Backend,
    {
        ProjectType::Backend
    }
}

impl ProjectType {
    /// The lowercase label of the category.
    pub open spec fn spec_label(self) -> Seq<char> {
        match self {
            ProjectType::Backend => "backend"@,
            ProjectType::Frontend => "frontend"@,
            ProjectType::Mobile => "mobile"@,
            ProjectType::Ml => "ml"@,
        }
    }

    /// The lowercase label of the category.
    pub fn to_string(&self) -> (r: String)
        ensures
            r@ == self.spec_label(),
    {
        match self {
            ProjectType::Backend => "backend".to_owned(),
            ProjectType::Frontend => "frontend".to_owned(),
            ProjectType::Mobile => "mobile".to_owned(),
            ProjectType::Ml => "ml".to_owned(),
        }
    }
}

/// Status of a task.
#[derive(Debug, Clone, Copy, PartialEq, Eq, Structural)]
pub enum TaskStatus {
    Pending,
    InProgress,
    Blocked,
    Done,
}

impl Default for TaskStatus {
    fn default() -> (r: Self)
        ensures
            r == TaskStatus::Pending,
    {
        TaskStatus::Pending
    }
}

impl TaskStatus {
    /// The lowercase label of the status.
    pub open spec fn spec_label(self) -> Seq<char> {
        match self {
            TaskStatus::Pending => "pending"@,
            TaskStatus::InProgress => "inprogress"@,
            TaskStatus::Blocked => "blocked"@,
            TaskStatus::Done => "done"@,
        }
    }

    /// The lowercase label of the status.
    pub fn to_string(&self) -> (r: String)
        ensures
            r@ == self.spec_label(),
    {
        match self {
            TaskStatus::Pending => "pending".to_owned(),
            TaskStatus::InProgress => "inprogress".to_owned(),
            TaskStatus::Blocked => "blocked".to_owned(),
            TaskStatus::Done => "done".to_owned(),
        }
    }
}

/// A single agent task within a codebase. Timestamps are Unix seconds.
#[derive(Debug, Clone)]
pub struct Task {
    pub id: TaskId,
    pub title: String,
    pub status: TaskStatus,
    pub description: Option<String>,
    pub created_at: i64,
    pub updated_at: i64,
}

/// Configuration for a specific AI agent assigned to a codebase.
#[derive(Debug, Clone)]
pub struct AgentConfig {
    pub agent_id: String,
    /// Relative or absolute path to the agent's entry point file.
    pub entry_point: String,
    pub skills: Option<Vec<String>>,
}

/// A project within a codebase (logical grouping of tasks and agents).
#[derive(Debug, Clone)]
pub struct Project {
    pub name: ProjectName,
    pub project_type: ProjectType,
    pub tasks: Vec<Task>,
    pub agents: Vec<AgentConfig>,
}

/// A codebase managed by the registry. Timestamps are Unix seconds.
#[derive(Debug, Clone)]
pub struct Codebase {
    pub name: CodebaseName,
    /// Absolute path to the codebase root on disk.
    pub path: String,
    pub projects: Vec<Project>,
    pub created_at: i64,
    pub updated_at: i64,
}

/// Root of the registry: every codebase known to the system.
#[derive(Debug, Clone)]
pub struct Registry {
    pub version: u32,
    pub codebases: Vec<Codebase>,
    pub created_at: i64,
    pub updated_at: i64,
}

/// Thin wrapper so a command line can parse a `ProjectType` from its
/// lowercase name.
#[derive(Debug, Clone)]
pub struct ProjectTypeArg(pub ProjectType);

impl Default for ProjectTypeArg {
    fn default() -> (r: Self)
        ensures
            r.0 == ProjectType::Backend,
    {
        ProjectTypeArg(ProjectType::Backend)
    }
}

impl From<ProjectTypeArg> for ProjectType {
    fn from(p: ProjectTypeArg) -> (r: Self) {
        p.0
    }
}

impl vstd::std_specs::convert::FromSpecImpl<ProjectTypeArg> for ProjectType {
    open spec fn obeys_from_spec() -> bool {
        true
    }

    open spec fn from_spec(p: ProjectTypeArg) -> Self {
        p.0
    }
}

impl core::str::FromStr for ProjectTypeArg {
    type Err = String;

    fn from_str(s: &str) -> Result<Self, String> {
        let lowered = crate::strutil::lower_ascii(s);
        if crate::strutil::str_eq(lowered.as_str(), "backend") {
            Result::Ok(ProjectTypeArg(ProjectType::Backend))
        } else if crate::strutil::str_eq(lowered.as_str(), "frontend") {
            Result::Ok(ProjectTypeArg(ProjectType::Frontend))
        } else if crate::strutil::str_eq(lowered.as_str(), "mobile") {
            Result::Ok(ProjectTypeArg(ProjectType::Mobile))
        } else if crate::strutil::str_eq(lowered.as_str(), "ml") {
            Result::Ok(ProjectTypeArg(ProjectType::Ml))
        } else {
            let mut message = "unknown project type '".to_owned();
            message.append(s);
            message.append("'; expected: backend, frontend, mobile, ml");
            Result::Err(message)
        }
    }
}

} // verus!
