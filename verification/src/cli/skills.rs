//! Installing the skill that tells agents how to use the command line.

use vstd::prelude::*;
use vstd::string::*;

use crate::paths::{join_path, joined_path};
use crate::text::{cat, cat3, chars_of, owned, slice_text, upper, upper_char};

verus! {

/// Where the skill is installed: for the user, or for the project.
#[derive(Debug, Clone, Copy, PartialEq, Eq, Structural)]
pub enum SkillScope {
    User,
    Project,
}

/// Whom the skill is installed for: an agent, or all of them.
#[derive(Debug, Clone, Copy, PartialEq, Eq, Structural)]
pub enum SkillTarget {
    Codex,
    Claude,
    All,
}

/// The agents that a target stands for, in order.
pub open spec fn agents_of(target: SkillTarget) -> Seq<SkillTarget> {
    match target {
        SkillTarget::All => seq![SkillTarget::Codex, SkillTarget::Claude],
        one => seq![one],
    }
}

/// The agents that a target stands for, in order.
pub fn skill_targets(target: SkillTarget) -> (r: Vec<SkillTarget>)
    ensures
        r@ == agents_of(target),
{
    let mut r: Vec<SkillTarget> = Vec::new();
    match target {
        SkillTarget::All => {
            r.push(SkillTarget::Codex);
            r.push(SkillTarget::Claude);
        },
        one => r.push(one),
    }
    assert(r@ =~= agents_of(target));
    r
}

/// The name of an agent as it is shown: with a capital letter.
pub open spec fn shown_name(agent: Seq<char>) -> Seq<char> {
    if agent.len() == 0 {
        agent
    } else {
        seq![upper(agent[0])] + agent.drop_first()
    }
}

/// The name of an agent as it is shown.
pub fn skill_target_name(agent: &str) -> (r: String)
    ensures
        r@ == shown_name(agent@),
{
    let c = chars_of(agent);
    if c.len() == 0 {
        return owned(agent);
    }
    let mut r = String::new();
    r.push(upper_char(c[0]));
    r.append(slice_text(&c, 1, c.len()).as_str());
    assert(r@ =~= shown_name(agent@));
    r
}

/// The directory for the skills of an agent, or what is wrong: for the project below the
/// current directory, for the user below the home directory, in the hidden directory that
/// bears the agent's name. A variable of its own can give the directory of Codex for the
/// user.
pub open spec fn install_dir(
    target: SkillTarget,
    agent: Seq<char>,
    scope: SkillScope,
    cwd: Seq<char>,
    home: Option<Seq<char>>,
    codex_home: Option<Seq<char>>,
) -> Result<Seq<char>, Seq<char>> {
    match scope {
        SkillScope::Project => Ok(join_path(join_path(cwd, "."@ + agent), "skills"@)),
        SkillScope::User => if target == SkillTarget::Codex && codex_home is Some {
            Ok(join_path(codex_home->0, "skills"@))
        } else {
            match home {
                Some(h) => Ok(join_path(join_path(h, "."@ + agent), "skills"@)),
                None => Err("could not determine home directory"@),
            }
        },
    }
}

/// A text, as a mathematical object.
pub open spec fn opt_view(o: Option<&str>) -> Option<Seq<char>> {
    match o {
        Some(s) => Some(s@),
        None => None,
    }
}

/// The directory for the skills of an agent, which is named in lower case.
pub fn skill_install_dir(
    target: SkillTarget,
    agent: &str,
    scope: SkillScope,
    cwd: &str,
    home: Option<&str>,
    codex_home: Option<&str>,
) -> (r: Result<String, String>)
    requires
        target != SkillTarget::All,
    ensures
        match r {
            Ok(d) => install_dir(
                target,
                agent@,
                scope,
                cwd@,
                opt_view(home),
                opt_view(codex_home),
            ) == Ok::<Seq<char>, Seq<char>>(d@),
            Err(e) => install_dir(
                target,
                agent@,
                scope,
                cwd@,
                opt_view(home),
                opt_view(codex_home),
            ) == Err::<Seq<char>, Seq<char>>(e@),
        },
{
    let dir = cat(".", agent);
    let own = dir.as_str();
    match (scope, target, codex_home) {
        (SkillScope::Project, _, _) => Ok(joined_path(joined_path(cwd, own).as_str(), "skills")),
        (SkillScope::User, SkillTarget::Codex, Some(c)) => Ok(joined_path(c, "skills")),
        _ => match home {
            Some(h) => Ok(joined_path(joined_path(h, own).as_str(), "skills")),
            None => Err(owned("could not determine home directory")),
        },
    }
}

/// The file of the skill, below the directory for skills.
pub fn skill_file(dir: &str) -> (r: String)
    ensures
        r@ == join_path(join_path(dir@, "starling-devex"@), "SKILL.md"@),
{
    joined_path(joined_path(dir, "starling-devex").as_str(), "SKILL.md")
}

/// Whether the skill is written; the error where it exists and is not to be replaced.
pub fn may_install(file: &str, present: bool, force: bool) -> (r: Result<(), String>)
    ensures
        match r {
            Ok(_) => !present || force,
            Err(e) => present && !force && e@ == file@
                + " already exists; rerun with --force to replace it"@,
        },
{
    if present && !force {
        Err(cat(file, " already exists; rerun with --force to replace it"))
    } else {
        Ok(())
    }
}

/// The line that tells where the skill was installed.
pub fn installed_line(agent: &str, file: &str) -> (r: String)
    ensures
        r@ == "Installed "@ + shown_name(agent@) + " skill at "@ + file@,
{
    let mut r = cat3("Installed ", skill_target_name(agent).as_str(), " skill at ");
    r.append(file);
    r
}

/// The text of the skill.
pub const SKILL: &'static str = "---\nname: starling-devex\ndescription: Use when operating or diagnosing Starling local dev environments, including named URL proxy issues, resource health checks, recent service logs, project shutdown, and daemon lifecycle management.\n---\n\n# Starling Dev Environment\n\nUse the `starling` CLI instead of scraping the TUI when checking local dev environment state for users or agents.\n\n## Core Commands\n\n- `starling status --json`: machine-readable daemon state, instances, resources, routes, and route backend reachability.\n- `starling status`: human-readable summary of the same state.\n- `starling logs <resource> --tail 120 --json`: recent logs for a resource.\n- `starling logs --instance <id-or-name> --json`: recent logs for all resources in one instance.\n- `starling down --file <Starlingfile-or-Tiltfile>`: stop the running project instance matching that config directory.\n- `starling daemon --shutdown`: stop all running instances and terminate the daemon.\n- `starling daemon --restart`: restart the daemon, or start it if absent.\n\n## Diagnosing 502 Named URLs\n\nIf a Starling URL returns `502 Bad Gateway`, run:\n\n```bash\nstarling status --json\nstarling logs <resource> --tail 80\n```\n\nInterpretation:\n\n- A route with `\"reachable\": false` means the Starling proxy has a route, but `127.0.0.1:<port>` is not accepting connections.\n- If logs show the app listening on a different port than the route, update the Starlingfile resource to either honor `$PORT` or set `serve_port=<actual-port>`.\n- If the process is running but bound to another interface or container-only address, bind it to `127.0.0.1` or expose the selected port on the host.\n\n## Preferred Agent Workflow\n\n1. Run `starling status --json`.\n2. Identify the instance/resource and route backend port.\n3. Run `starling logs <resource> --tail 120 --json`.\n4. Recommend a concrete Starlingfile or service-command fix based on the port and logs.\n5. Use `starling down` or `starling daemon --shutdown` only when asked to stop services.\n";

/// The text of the skill.
pub fn starling_skill_markdown() -> (r: &'static str)
    ensures
        r@ == SKILL@,
{
    SKILL
}

} // verus!
