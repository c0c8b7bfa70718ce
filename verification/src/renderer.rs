//! The rendering payload: which agents exist, which templates each renders,
//! where the outputs land, and the context a codebase record turns into.
//!
//! The template engine itself is an outside collaborator; this module pins
//! down everything it is fed and every path it writes.

use vstd::prelude::*;

use crate::types::{Codebase, Project, TaskStatus};

verus! {

/// The version the rendering context reports.
pub const ORCHESTRA_VERSION: &'static str = "0.1.0";

/// All supported AI coding agents.
#[derive(Debug, Clone, Copy, PartialEq, Eq, Hash, Structural)]
pub enum AgentKind {
    Assistant,
    Cursor,
    Windsurf,
    Copilot,
    Codex,
    Gemini,
    Cline,
    Antigravity,
}

impl AgentKind {
    /// All agent variants in a stable order.
    pub fn all() -> (r: Vec<AgentKind>)
        ensures
            r@ == seq![
                AgentKind::Assistant,
                AgentKind::Cursor,
                AgentKind::Windsurf,
                AgentKind::Copilot,
                AgentKind::Codex,
                AgentKind::Gemini,
                AgentKind::Cline,
                AgentKind::Antigravity,
            ],
    {
        let mut v: Vec<AgentKind> = Vec::new();
        v.push(AgentKind::Assistant);
        v.push(AgentKind::Cursor);
        v.push(AgentKind::Windsurf);
        v.push(AgentKind::Copilot);
        v.push(AgentKind::Codex);
        v.push(AgentKind::Gemini);
        v.push(AgentKind::Cline);
        v.push(AgentKind::Antigravity);
        proof {
            assert(v@ =~= seq![
                AgentKind::Assistant,
                AgentKind::Cursor,
                AgentKind::Windsurf,
                AgentKind::Copilot,
                AgentKind::Codex,
                AgentKind::Gemini,
                AgentKind::Cline,
                AgentKind::Antigravity,
            ]);
        }
        v
    }

    /// The names of the templates this agent renders. Gemini produces three
    /// files; every other agent produces one.
    pub open spec fn spec_template_names(self) -> Seq<Seq<char>> {
        match self {
            AgentKind::Assistant => seq!["assistant/assistant.md.tera"@],
            AgentKind::Cursor => seq!["cursor/cursorrules.tera"@],
            AgentKind::Windsurf => seq!["windsurf/orchestra.md.tera"@],
            AgentKind::Copilot => seq!["copilot/copilot-instructions.md.tera"@],
            AgentKind::Codex => seq!["codex/agents.md.tera"@],
            AgentKind::Gemini => seq![
                "gemini/gemini.md.tera"@,
                "gemini/settings.json.tera"@,
                "gemini/styleguide.md.tera"@,
            ],
            AgentKind::Cline => seq!["cline/orchestra.md.tera"@],
            AgentKind::Antigravity => seq!["antigravity/orchestra.md.tera"@],
        }
    }

    /// Template name(s) to render for this agent.
    pub fn template_names(&self) -> (r: Vec<String>)
        ensures
            r@.map_values(|s: String| s@) == self.spec_template_names(),
    {
        let mut v: Vec<String> = Vec::new();
        match self {
            AgentKind::Assistant => v.push("assistant/assistant.md.tera".to_owned()),
            AgentKind::Cursor => v.push("cursor/cursorrules.tera".to_owned()),
            AgentKind::Windsurf => v.push("windsurf/orchestra.md.tera".to_owned()),
            AgentKind::Copilot => v.push("copilot/copilot-instructions.md.tera".to_owned()),
            AgentKind::Codex => v.push("codex/agents.md.tera".to_owned()),
            AgentKind::Gemini => {
                v.push("gemini/gemini.md.tera".to_owned());
                v.push("gemini/settings.json.tera".to_owned());
                v.push("gemini/styleguide.md.tera".to_owned());
            },
            AgentKind::Cline => v.push("cline/orchestra.md.tera".to_owned()),
            AgentKind::Antigravity => v.push("antigravity/orchestra.md.tera".to_owned()),
        }
        proof {
            assert(v@.map_values(|s: String| s@) =~= self.spec_template_names());
        }
        v
    }

    /// The output paths this agent's templates land at, under the codebase
    /// root; one per template, in the same order.
    pub open spec fn spec_output_paths(self, root: Seq<char>) -> Seq<Seq<char>> {
        match self {
            AgentKind::Assistant => seq![root + "/ASSISTANT.md"@],
            AgentKind::Cursor => seq![root + "/.cursor/rules/orchestra.mdc"@],
            AgentKind::Windsurf => seq![root + "/.windsurf/rules/orchestra.md"@],
            AgentKind::Copilot => seq![root + "/.github/copilot-instructions.md"@],
            AgentKind::Codex => seq![root + "/AGENTS.md"@],
            AgentKind::Gemini => seq![
                root + "/GEMINI.md"@,
                root + "/.gemini/settings.json"@,
                root + "/.gemini/styleguide.md"@,
            ],
            AgentKind::Cline => seq![root + "/.clinerules/orchestra.md"@],
            AgentKind::Antigravity => seq![root + "/.agent/rules/orchestra.md"@],
        }
    }

    /// Official output paths for this agent, relative to the codebase root.
    pub fn output_paths(&self, codebase_root: &str) -> (r: Vec<String>)
        ensures
            r@.map_values(|s: String| s@) == self.spec_output_paths(codebase_root@),
    {
        let mut v: Vec<String> = Vec::new();
        match self {
            AgentKind::Assistant => {
                let mut p = codebase_root.to_owned();
                p.append("/ASSISTANT.md");
                v.push(p);
            },
            AgentKind::Cursor => {
                let mut p = codebase_root.to_owned();
                p.append("/.cursor/rules/orchestra.mdc");
                v.push(p);
            },
            AgentKind::Windsurf => {
                let mut p = codebase_root.to_owned();
                p.append("/.windsurf/rules/orchestra.md");
                v.push(p);
            },
            AgentKind::Copilot => {
                let mut p = codebase_root.to_owned();
                p.append("/.github/copilot-instructions.md");
                v.push(p);
            },
            AgentKind::Codex => {
                let mut p = codebase_root.to_owned();
                p.append("/AGENTS.md");
                v.push(p);
            },
            AgentKind::Gemini => {
                let mut p1 = codebase_root.to_owned();
                p1.append("/GEMINI.md");
                v.push(p1);
                let mut p2 = codebase_root.to_owned();
                p2.append("/.gemini/settings.json");
                v.push(p2);
                let mut p3 = codebase_root.to_owned();
                p3.append("/.gemini/styleguide.md");
                v.push(p3);
            },
            AgentKind::Cline => {
                let mut p = codebase_root.to_owned();
                p.append("/.clinerules/orchestra.md");
                v.push(p);
            },
            AgentKind::Antigravity => {
                let mut p = codebase_root.to_owned();
                p.append("/.agent/rules/orchestra.md");
                v.push(p);
            },
        }
        proof {
            assert(v@.map_values(|s: String| s@) =~= self.spec_output_paths(codebase_root@));
        }
        v
    }
}

/// Identity context: which codebase is being rendered.
#[derive(Debug, Clone)]
pub struct IdentityCtx {
    pub codebase_name: String,
    pub codebase_path: String,
}

/// Serializable summary of a project.
#[derive(Debug, Clone)]
pub struct ProjectSummary {
    pub name: String,
    pub project_type: String,
}

/// Stack context: the codebase's projects.
#[derive(Debug, Clone)]
pub struct StackCtx {
    pub projects: Vec<ProjectSummary>,
}

/// Command context: how to re-run a sync.
#[derive(Debug, Clone)]
pub struct CommandsCtx {
    pub sync: String,
    pub sync_dry_run: String,
}

/// Architecture context.
#[derive(Debug, Clone)]
pub struct ArchitectureCtx {
    pub summary: String,
}

/// Skill context entry.
#[derive(Debug, Clone)]
pub struct SkillCtx {
    pub id: String,
    pub description: String,
}

/// Task context entry.
#[derive(Debug, Clone)]
pub struct TaskCtx {
    pub id: String,
    pub title: String,
    pub status: String,
    pub description: Option<String>,
}

/// Subagent context entry.
#[derive(Debug, Clone)]
pub struct SubagentCtx {
    pub id: String,
    pub entry_point: String,
    pub skills: Vec<String>,
}

/// Meta context: tool version and last sync, when known.
#[derive(Debug, Clone)]
pub struct MetaCtx {
    pub orchestra_version: String,
    /// Unix seconds of the last successful sync, when the store knew one.
    pub last_synced: Option<i64>,
}

/// The rendering payload built from a codebase record. The nested shape is
/// exposed via `identity`, `stack`, `commands`, `architecture`, `skills`,
/// `tasks`, `subagents` and `meta`; the flat fields are retained so existing
/// templates keep working.
#[derive(Debug, Clone)]
pub struct TemplateContext {
    pub identity: IdentityCtx,
    pub stack: StackCtx,
    pub commands: CommandsCtx,
    pub architecture: ArchitectureCtx,
    pub conventions: Vec<String>,
    pub skills: Vec<SkillCtx>,
    pub tasks: Vec<TaskCtx>,
    pub subagents: Vec<SubagentCtx>,
    pub meta: MetaCtx,
    pub codebase_name: String,
    pub codebase_path: String,
    pub projects: Vec<ProjectSummary>,
    pub active_task_count: usize,
}

/// A task context entry corresponds to a task record.
pub open spec fn task_ctx_matches(c: TaskCtx, t: crate::types::Task) -> bool {
    &&& c.id@ == t.id.0@
    &&& c.title@ == t.title@
    &&& c.status@ == t.status.spec_label()
    &&& match (c.description, t.description) {
        (Some(cd), Some(td)) => cd@ == td@,
        (None, None) => true,
        _ => false,
    }
}

/// The active (non-done) tasks of one project.
pub open spec fn spec_active_tasks(tasks: Seq<crate::types::Task>) -> Seq<crate::types::Task>
    decreases tasks.len(),
{
    if tasks.len() == 0 {
        Seq::<crate::types::Task>::empty()
    } else {
        spec_active_tasks(tasks.drop_last()) + if !(tasks.last().status is Done) {
            seq![tasks.last()]
        } else {
            Seq::<crate::types::Task>::empty()
        }
    }
}

/// The active tasks of all projects, in project order.
pub open spec fn spec_all_active_tasks(projects: Seq<Project>) -> Seq<crate::types::Task>
    decreases projects.len(),
{
    if projects.len() == 0 {
        Seq::<crate::types::Task>::empty()
    } else {
        spec_all_active_tasks(projects.drop_last()) + spec_active_tasks(projects.last().tasks@)
    }
}

/// The agent configurations of all projects, in project order.
pub open spec fn spec_all_agents(projects: Seq<Project>) -> Seq<crate::types::AgentConfig>
    decreases projects.len(),
{
    if projects.len() == 0 {
        Seq::<crate::types::AgentConfig>::empty()
    } else {
        spec_all_agents(projects.drop_last()) + projects.last().agents@
    }
}

/// The skill names of a sequence of agents, in order; an agent without a
/// skill list contributes nothing.
pub open spec fn spec_all_skills(agents: Seq<crate::types::AgentConfig>) -> Seq<Seq<char>>
    decreases agents.len(),
{
    if agents.len() == 0 {
        Seq::<Seq<char>>::empty()
    } else {
        spec_all_skills(agents.drop_last()) + match agents.last().skills {
            Some(skills) => skills@.map_values(|s: String| s@),
            None => Seq::<Seq<char>>::empty(),
        }
    }
}

/// Collect the active tasks across all projects.
pub fn collect_active_tasks(projects: &Vec<Project>) -> (r: Vec<TaskCtx>)
    ensures
        r@.len() == spec_all_active_tasks(projects@).len(),
        forall|i: int| 0 <= i < r@.len() ==> task_ctx_matches(
            #[trigger] r@[i],
            spec_all_active_tasks(projects@)[i],
        ),
{
    let mut out: Vec<TaskCtx> = Vec::new();
    let mut k: usize = 0;
    while k < projects.len()
        invariant
            k <= projects@.len(),
            out@.len() == spec_all_active_tasks(projects@.take(k as int)).len(),
            forall|i: int| 0 <= i < out@.len() ==> task_ctx_matches(
                #[trigger] out@[i],
                spec_all_active_tasks(projects@.take(k as int))[i],
            ),
        decreases projects@.len() - k,
    {
        proof {
            assert(projects@.take(k + 1).drop_last() =~= projects@.take(k as int));
            assert(projects@.take(k + 1).last() == projects@[k as int]);
        }
        let tasks = &projects[k].tasks;
        let ghost base = spec_all_active_tasks(projects@.take(k as int));
        let mut t: usize = 0;
        while t < tasks.len()
            invariant
                t <= tasks@.len(),
                base == spec_all_active_tasks(projects@.take(k as int)),
                out@.len() == base.len() + spec_active_tasks(tasks@.take(t as int)).len(),
                forall|i: int| 0 <= i < out@.len() ==> task_ctx_matches(
                    #[trigger] out@[i],
                    (base + spec_active_tasks(tasks@.take(t as int)))[i],
                ),
            decreases tasks@.len() - t,
        {
            proof {
                assert(tasks@.take(t + 1).drop_last() =~= tasks@.take(t as int));
                assert(tasks@.take(t + 1).last() == tasks@[t as int]);
            }
            let task = &tasks[t];
            if !matches!(task.status, TaskStatus::Done) {
                let description = match &task.description {
                    Option::Some(d) => Option::Some(d.clone()),
                    Option::None => Option::None,
                };
                out.push(
                    TaskCtx {
                        id: task.id.0.clone(),
                        title: task.title.clone(),
                        status: task.status.to_string(),
                        description,
                    },
                );
            }
            t = t + 1;
        }
        proof {
            assert(tasks@.take(tasks@.len() as int) =~= tasks@);
        }
        k = k + 1;
    }
    proof {
        assert(projects@.take(projects@.len() as int) =~= projects@);
    }
    out
}

/// Collect the subagent entries across all projects.
fn collect_subagents(projects: &Vec<Project>) -> (r: Vec<SubagentCtx>)
    ensures
        r@.len() == spec_all_agents(projects@).len(),
        forall|i: int| 0 <= i < r@.len() ==> #[trigger] r@[i].id@ == spec_all_agents(
            projects@,
        )[i].agent_id@,
        forall|i: int| 0 <= i < r@.len() ==> #[trigger] r@[i].entry_point@ == spec_all_agents(
            projects@,
        )[i].entry_point@,
        forall|i: int| 0 <= i < r@.len() ==> (#[trigger] r@[i]).skills@.map_values(|s: String| s@)
            == (match spec_all_agents(projects@)[i].skills {
            Some(sk) => sk@.map_values(|s: String| s@),
            None => Seq::<Seq<char>>::empty(),
        }),
{
    let mut out: Vec<SubagentCtx> = Vec::new();
    let mut k: usize = 0;
    while k < projects.len()
        invariant
            k <= projects@.len(),
            out@.len() == spec_all_agents(projects@.take(k as int)).len(),
            forall|i: int| 0 <= i < out@.len() ==> #[trigger] out@[i].id@ == spec_all_agents(
                projects@.take(k as int),
            )[i].agent_id@,
            forall|i: int| 0 <= i < out@.len() ==> #[trigger] out@[i].entry_point@
                == spec_all_agents(projects@.take(k as int))[i].entry_point@,
            forall|i: int| 0 <= i < out@.len() ==> (#[trigger] out@[i]).skills@.map_values(
                |s: String| s@,
            ) == (match spec_all_agents(projects@.take(k as int))[i].skills {
                Some(sk) => sk@.map_values(|s: String| s@),
                None => Seq::<Seq<char>>::empty(),
            }),
        decreases projects@.len() - k,
    {
        proof {
            assert(projects@.take(k + 1).drop_last() =~= projects@.take(k as int));
            assert(projects@.take(k + 1).last() == projects@[k as int]);
        }
        let agents = &projects[k].agents;
        let ghost base = spec_all_agents(projects@.take(k as int));
        let mut j: usize = 0;
        while j < agents.len()
            invariant
                j <= agents@.len(),
                base == spec_all_agents(projects@.take(k as int)),
                out@.len() == base.len() + j,
                forall|i: int| 0 <= i < out@.len() ==> #[trigger] out@[i].id@ == (base
                    + agents@.take(j as int))[i].agent_id@,
                forall|i: int| 0 <= i < out@.len() ==> #[trigger] out@[i].entry_point@ == (base
                    + agents@.take(j as int))[i].entry_point@,
                forall|i: int| 0 <= i < out@.len() ==> (#[trigger] out@[i]).skills@.map_values(
                    |s: String| s@,
                ) == (match (base + agents@.take(j as int))[i].skills {
                    Some(sk) => sk@.map_values(|s: String| s@),
                    None => Seq::<Seq<char>>::empty(),
                }),
            decreases agents@.len() - j,
        {
            let agent = &agents[j];
            let mut skills: Vec<String> = Vec::new();
            match &agent.skills {
                Option::Some(sk) => {
                    let mut u: usize = 0;
                    while u < sk.len()
                        invariant
                            u <= sk@.len(),
                            skills@.len() == u,
                            forall|t: int| 0 <= t < u ==> #[trigger] skills@[t]@ == sk@[t]@,
                        decreases sk@.len() - u,
                    {
                        skills.push(sk[u].clone());
                        u = u + 1;
                    }
                    proof {
                        assert(skills@.map_values(|s: String| s@) =~= sk@.map_values(
                            |s: String| s@,
                        ));
                    }
                },
                Option::None => {
                    proof {
                        assert(skills@.map_values(|s: String| s@) =~= Seq::<Seq<char>>::empty());
                    }
                },
            }
            let ghost prev = out@;
            let ghost whole_prev = base + agents@.take(j as int);
            out.push(
                SubagentCtx {
                    id: agent.agent_id.clone(),
                    entry_point: agent.entry_point.clone(),
                    skills,
                },
            );
            j = j + 1;
            proof {
                let whole = base + agents@.take(j as int);
                assert(whole =~= whole_prev.push(agents@[j - 1]));
                assert forall|i: int| 0 <= i < out@.len() implies #[trigger] out@[i].id@
                    == whole[i].agent_id@ by {
                    if i < prev.len() {
                        assert(out@[i] == prev[i]);
                        assert(whole[i] == whole_prev[i]);
                        assert(prev[i].id@ == whole_prev[i].agent_id@);
                    } else {
                        assert(i == prev.len());
                        assert(out@[i] == out@.last());
                        assert(out@.last().id@ == agents@[j - 1].agent_id@);
                        assert(whole[i] == agents@[j - 1]);
                    }
                }
                assert forall|i: int| 0 <= i < out@.len() implies #[trigger] out@[
                    i
                ].entry_point@ == whole[i].entry_point@ by {
                    if i < prev.len() {
                        assert(out@[i] == prev[i]);
                        assert(whole[i] == whole_prev[i]);
                    } else {
                        assert(out@[i] == out@.last());
                        assert(whole[i] == agents@[j - 1]);
                    }
                }
                assert forall|i: int| 0 <= i < out@.len() implies (#[trigger] out@[
                    i
                ]).skills@.map_values(|s: String| s@) == (match whole[i].skills {
                    Some(sk) => sk@.map_values(|s: String| s@),
                    None => Seq::<Seq<char>>::empty(),
                }) by {
                    if i < prev.len() {
                        assert(out@[i] == prev[i]);
                        assert(whole[i] == whole_prev[i]);
                    } else {
                        assert(out@[i] == out@.last());
                        assert(whole[i] == agents@[j - 1]);
                    }
                }
            }
        }
        proof {
            assert(agents@.take(agents@.len() as int) =~= agents@);
            assert(base + agents@ =~= spec_all_agents(projects@.take(k + 1)));
        }
        k = k + 1;
    }
    proof {
        assert(projects@.take(projects@.len() as int) =~= projects@);
    }
    out
}

/// Collect the skill entries across all projects' agents: one entry per
/// listed skill, its name doubling as its description.
fn collect_skills(projects: &Vec<Project>) -> (r: Vec<SkillCtx>)
    ensures
        ({
            let skills = spec_all_skills(spec_all_agents(projects@));
            &&& r@.len() == skills.len()
            &&& forall|i: int| 0 <= i < r@.len() ==> #[trigger] r@[i].id@ == skills[i]
                && r@[i].description@ == skills[i]
        }),
{
    let mut out: Vec<SkillCtx> = Vec::new();
    let mut k: usize = 0;
    while k < projects.len()
        invariant
            k <= projects@.len(),
            ({
                let skills = spec_all_skills(spec_all_agents(projects@.take(k as int)));
                &&& out@.len() == skills.len()
                &&& forall|i: int| 0 <= i < out@.len() ==> #[trigger] out@[i].id@ == skills[i]
                    && out@[i].description@ == skills[i]
            }),
        decreases projects@.len() - k,
    {
        proof {
            assert(projects@.take(k + 1).drop_last() =~= projects@.take(k as int));
            assert(projects@.take(k + 1).last() == projects@[k as int]);
        }
        let agents = &projects[k].agents;
        let ghost agents_base = spec_all_agents(projects@.take(k as int));
        let mut j: usize = 0;
        while j < agents.len()
            invariant
                j <= agents@.len(),
                agents_base == spec_all_agents(projects@.take(k as int)),
                ({
                    let skills = spec_all_skills(agents_base + agents@.take(j as int));
                    &&& out@.len() == skills.len()
                    &&& forall|i: int| 0 <= i < out@.len() ==> #[trigger] out@[i].id@
                        == skills[i] && out@[i].description@ == skills[i]
                }),
            decreases agents@.len() - j,
        {
            proof {
                lemma_all_skills_snoc(agents_base + agents@.take(j as int), agents@[j as int]);
                assert(agents_base + agents@.take(j + 1) =~= (agents_base + agents@.take(
                    j as int,
                )).push(agents@[j as int]));
            }
            let agent = &agents[j];
            match &agent.skills {
                Option::Some(sk) => {
                    let ghost skbase = spec_all_skills(agents_base + agents@.take(j as int));
                    let mut u: usize = 0;
                    while u < sk.len()
                        invariant
                            u <= sk@.len(),
                            skbase == spec_all_skills(agents_base + agents@.take(j as int)),
                            out@.len() == skbase.len() + u,
                            forall|i: int| 0 <= i < out@.len() ==> #[trigger] out@[i].id@ == (
                            skbase + sk@.map_values(|s: String| s@).take(u as int))[i]
                                && out@[i].description@ == (skbase + sk@.map_values(
                                |s: String| s@,
                            ).take(u as int))[i],
                        decreases sk@.len() - u,
                    {
                        out.push(SkillCtx { id: sk[u].clone(), description: sk[u].clone() });
                        u = u + 1;
                    }
                    proof {
                        assert(sk@.map_values(|s: String| s@).take(sk@.len() as int)
                            =~= sk@.map_values(|s: String| s@));
                    }
                },
                Option::None => {},
            }
            j = j + 1;
        }
        proof {
            assert(agents@.take(agents@.len() as int) =~= agents@);
            lemma_all_agents_concat(projects@.take(k as int), projects@[k as int]);
            assert(projects@.take(k + 1).drop_last() =~= projects@.take(k as int));
        }
        k = k + 1;
    }
    proof {
        assert(projects@.take(projects@.len() as int) =~= projects@);
    }
    out
}

/// Appending one agent appends its skills.
proof fn lemma_all_skills_snoc(agents: Seq<crate::types::AgentConfig>, a: crate::types::AgentConfig)
    ensures
        spec_all_skills(agents.push(a)) == spec_all_skills(agents) + (match a.skills {
            Some(sk) => sk@.map_values(|s: String| s@),
            None => Seq::<Seq<char>>::empty(),
        }),
{
    assert(agents.push(a).drop_last() =~= agents);
    assert(agents.push(a).last() == a);
}

/// The agents of one more project extend the flattened agent list.
proof fn lemma_all_agents_concat(projects: Seq<Project>, p: Project)
    ensures
        spec_all_agents(projects.push(p)) == spec_all_agents(projects) + p.agents@,
{
    assert(projects.push(p).drop_last() =~= projects);
    assert(projects.push(p).last() == p);
}

/// Build the rendering context from a codebase record: one summary per
/// project, every active (non-done) task, every subagent with its skills,
/// the re-run commands for this codebase, and the meta block (version set,
/// last sync unknown until the caller fills it in).
pub fn from_codebase(codebase: &Codebase) -> (r: TemplateContext)
    ensures
        r.identity.codebase_name@ == codebase.name.0@,
        r.identity.codebase_path@ == codebase.path@,
        r.codebase_name@ == codebase.name.0@,
        r.codebase_path@ == codebase.path@,
        r.projects@.len() == codebase.projects@.len(),
        forall|i: int| 0 <= i < r.projects@.len() ==> #[trigger] r.projects@[i].name@
            == codebase.projects@[i].name.0@,
        forall|i: int| 0 <= i < r.projects@.len() ==> #[trigger] r.projects@[i].project_type@
            == codebase.projects@[i].project_type.spec_label(),
        r.stack.projects@.len() == codebase.projects@.len(),
        forall|i: int| 0 <= i < r.stack.projects@.len() ==> #[trigger] r.stack.projects@[i].name@
            == codebase.projects@[i].name.0@,
        forall|i: int| 0 <= i < r.stack.projects@.len()
            ==> #[trigger] r.stack.projects@[i].project_type@
            == codebase.projects@[i].project_type.spec_label(),
        r.commands.sync@ == "orchestra sync "@ + codebase.name.0@,
        r.commands.sync_dry_run@ == "orchestra sync "@ + codebase.name.0@ + " --dry-run"@,
        r.architecture.summary@ == "Refer to the project README and inline documentation."@,
        r.conventions@.len() == 0,
        r.tasks@.len() == spec_all_active_tasks(codebase.projects@).len(),
        forall|i: int| 0 <= i < r.tasks@.len() ==> task_ctx_matches(
            #[trigger] r.tasks@[i],
            spec_all_active_tasks(codebase.projects@)[i],
        ),
        r.active_task_count == r.tasks@.len(),
        r.skills@.len() == spec_all_skills(spec_all_agents(codebase.projects@)).len(),
        forall|i: int| 0 <= i < r.skills@.len() ==> #[trigger] r.skills@[i].id@ == spec_all_skills(
            spec_all_agents(codebase.projects@),
        )[i] && r.skills@[i].description@ == spec_all_skills(
            spec_all_agents(codebase.projects@),
        )[i],
        r.subagents@.len() == spec_all_agents(codebase.projects@).len(),
        forall|i: int| 0 <= i < r.subagents@.len() ==> #[trigger] r.subagents@[i].id@
            == spec_all_agents(codebase.projects@)[i].agent_id@ && r.subagents@[i].entry_point@
            == spec_all_agents(codebase.projects@)[i].entry_point@,
        r.meta.orchestra_version@ == "0.1.0"@,
        r.meta.last_synced is None,
{
    let mut projects: Vec<ProjectSummary> = Vec::new();
    let mut stack_projects: Vec<ProjectSummary> = Vec::new();
    let mut k: usize = 0;
    while k < codebase.projects.len()
        invariant
            k <= codebase.projects@.len(),
            projects@.len() == k,
            stack_projects@.len() == k,
            forall|i: int| 0 <= i < k ==> #[trigger] projects@[i].name@
                == codebase.projects@[i].name.0@,
            forall|i: int| 0 <= i < k ==> #[trigger] projects@[i].project_type@
                == codebase.projects@[i].project_type.spec_label(),
            forall|i: int| 0 <= i < k ==> #[trigger] stack_projects@[i].name@
                == codebase.projects@[i].name.0@,
            forall|i: int| 0 <= i < k ==> #[trigger] stack_projects@[i].project_type@
                == codebase.projects@[i].project_type.spec_label(),
        decreases codebase.projects@.len() - k,
    {
        let p = &codebase.projects[k];
        let ghost prev_projects = projects@;
        let ghost prev_stack = stack_projects@;
        projects.push(
            ProjectSummary { name: p.name.0.clone(), project_type: p.project_type.to_string() },
        );
        stack_projects.push(
            ProjectSummary { name: p.name.0.clone(), project_type: p.project_type.to_string() },
        );
        proof {
            assert forall|i: int| 0 <= i < k + 1 implies #[trigger] projects@[i].name@
                == codebase.projects@[i].name.0@ && projects@[i].project_type@
                == codebase.projects@[i].project_type.spec_label() by {
                if i < k {
                    assert(projects@[i] == prev_projects[i]);
                    assert(prev_projects[i].name@ == codebase.projects@[i].name.0@);
                    assert(prev_projects[i].project_type@ == codebase.projects@[
                        i
                    ].project_type.spec_label());
                } else {
                    assert(projects@[i] == projects@.last());
                }
            }
            assert forall|i: int| 0 <= i < k + 1 implies #[trigger] stack_projects@[i].name@
                == codebase.projects@[i].name.0@ && stack_projects@[i].project_type@
                == codebase.projects@[i].project_type.spec_label() by {
                if i < k {
                    assert(stack_projects@[i] == prev_stack[i]);
                    assert(prev_stack[i].name@ == codebase.projects@[i].name.0@);
                    assert(prev_stack[i].project_type@ == codebase.projects@[
                        i
                    ].project_type.spec_label());
                } else {
                    assert(stack_projects@[i] == stack_projects@.last());
                }
            }
        }
        k = k + 1;
    }

    let tasks = collect_active_tasks(&codebase.projects);
    let skills = collect_skills(&codebase.projects);
    let subagents = collect_subagents(&codebase.projects);

    let codebase_name = codebase.name.0.clone();
    let codebase_path = codebase.path.clone();
    let active_task_count = tasks.len();

    let mut sync_cmd = "orchestra sync ".to_owned();
    sync_cmd.append(codebase_name.as_str());
    let mut dry_cmd = sync_cmd.clone();
    dry_cmd.append(" --dry-run");

    TemplateContext {
        identity: IdentityCtx {
            codebase_name: codebase_name.clone(),
            codebase_path: codebase_path.clone(),
        },
        stack: StackCtx { projects: stack_projects },
        commands: CommandsCtx { sync: sync_cmd, sync_dry_run: dry_cmd },
        architecture: ArchitectureCtx {
            summary: "Refer to the project README and inline documentation.".to_owned(),
        },
        conventions: Vec::new(),
        skills,
        tasks,
        subagents,
        meta: MetaCtx { orchestra_version: ORCHESTRA_VERSION.to_owned(), last_synced: None },
        codebase_name,
        codebase_path,
        projects,
        active_task_count,
    }
}

/// The context a sync run renders with: `last_synced` is reported only for a
/// real sync whose hash store already existed.
pub fn build_sync_context(
    codebase: &Codebase,
    dry_run: bool,
    store_existed: bool,
    store_synced_at: i64,
) -> (r: TemplateContext)
    ensures
        r.identity.codebase_name@ == codebase.name.0@,
        r.identity.codebase_path@ == codebase.path@,
        !dry_run && store_existed ==> (r.meta.last_synced matches Some(t) && t
            == store_synced_at),
        dry_run || !store_existed ==> r.meta.last_synced is None,
{
    let mut ctx = from_codebase(codebase);
    if dry_run {
        ctx.meta.last_synced = None;
    } else if store_existed {
        ctx.meta.last_synced = Some(store_synced_at);
    } else {
        ctx.meta.last_synced = None;
    }
    ctx
}

/// Template names are normalised to lowercase with `/` separators.
pub fn normalize_template_name(path: &str) -> (r: String)
    ensures
        r@ == crate::strutil::spec_lower_ascii(path@).map_values(
            |c: char| if c == '\\' { '/' } else { c },
        ),
{
    let lowered = crate::strutil::lower_ascii(path);
    let v = crate::strutil::chars_of(lowered.as_str());
    let mut out: Vec<char> = Vec::new();
    let mut i: usize = 0;
    while i < v.len()
        invariant
            v@ == crate::strutil::spec_lower_ascii(path@),
            i <= v@.len(),
            out@.len() == i,
            forall|t: int| 0 <= t < i ==> #[trigger] out@[t] == (if v@[t] == '\\' { '/' } else {
                v@[t]
            }),
        decreases v@.len() - i,
    {
        if v[i] == '\\' {
            out.push('/');
        } else {
            out.push(v[i]);
        }
        i = i + 1;
    }
    proof {
        assert(out@ =~= crate::strutil::spec_lower_ascii(path@).map_values(
            |c: char| if c == '\\' { '/' } else { c },
        ));
    }
    crate::strutil::string_of_chars(&out)
}

} // verus!

