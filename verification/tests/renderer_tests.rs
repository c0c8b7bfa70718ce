//! Agent kinds, template names and output paths, and the rendering context.

use orchestra::renderer::{from_codebase, normalize_template_name, AgentKind};
use orchestra::types::{
    AgentConfig, Codebase, CodebaseName, Project, ProjectName, Task, TaskId, TaskStatus,
};

fn make_codebase(name: &str) -> Codebase {
    let now: i64 = 1_700_000_000;
    Codebase {
        name: CodebaseName::from(name),
        path: "/code/test".to_string(),
        projects: vec![Project {
            name: ProjectName::from("api"),
            project_type: orchestra::types::ProjectType::Backend,
            tasks: vec![
                Task {
                    id: TaskId::from("t-001"),
                    title: "Do thing".to_string(),
                    status: TaskStatus::Pending,
                    description: None,
                    created_at: now,
                    updated_at: now,
                },
                Task {
                    id: TaskId::from("t-002"),
                    title: "Done thing".to_string(),
                    status: TaskStatus::Done,
                    description: None,
                    created_at: now,
                    updated_at: now,
                },
            ],
            agents: vec![AgentConfig {
                agent_id: "coder".to_string(),
                entry_point: "AGENT/coder.md".to_string(),
                skills: Some(vec!["rust".to_string()]),
            }],
        }],
        created_at: now,
        updated_at: now,
    }
}

#[test]
fn output_paths_count_matches_template_count() {
    let root = "/code/test";
    for agent in AgentKind::all() {
        assert_eq!(
            agent.template_names().len(),
            agent.output_paths(root).len(),
            "path/template count mismatch for {agent:?}"
        );
    }
}

#[test]
fn assistant_output_path_is_correct() {
    let paths = AgentKind::Assistant.output_paths("/code/myapp");
    assert_eq!(paths[0], "/code/myapp/ASSISTANT.md");
}

#[test]
fn copilot_output_path_is_correct() {
    let paths = AgentKind::Copilot.output_paths("/code/myapp");
    assert_eq!(paths[0], "/code/myapp/.github/copilot-instructions.md");
}

#[test]
fn gemini_produces_three_outputs() {
    assert_eq!(AgentKind::Gemini.output_paths("/code/multifile").len(), 3);
    assert_eq!(AgentKind::Gemini.template_names().len(), 3);
}

#[test]
fn context_fields_populated() {
    let cb = make_codebase("myapp");
    let ctx = from_codebase(&cb);
    assert_eq!(ctx.codebase_name, "myapp");
    assert_eq!(ctx.identity.codebase_name, "myapp");
    assert_eq!(ctx.projects.len(), 1);
    assert_eq!(ctx.stack.projects[0].project_type, "backend");
    assert_eq!(ctx.active_task_count, 1);
    assert_eq!(ctx.tasks.len(), 1, "done tasks must be filtered out");
    assert_eq!(ctx.skills.len(), 1);
    assert_eq!(ctx.subagents.len(), 1);
    assert!(ctx.meta.last_synced.is_none());
}

#[test]
fn context_commands_name_the_codebase() {
    let cb = make_codebase("payments");
    let ctx = from_codebase(&cb);
    assert_eq!(ctx.commands.sync, "orchestra sync payments");
    assert_eq!(ctx.commands.sync_dry_run, "orchestra sync payments --dry-run");
}

#[test]
fn template_names_normalise_to_lowercase_slashes() {
    assert_eq!(normalize_template_name("Shared\\_Header.Tera"), "shared/_header.tera");
    assert_eq!(normalize_template_name("codex/agents.md.tera"), "codex/agents.md.tera");
}
