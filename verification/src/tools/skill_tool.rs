//! Lets the model load a skill.

use vstd::prelude::*;
use crate::text;
use crate::tools::{self, reject_args, ErrorView, Param, ParamType, ToolDef, ToolError};
use crate::tui::app::{self, ActiveSkill, Skill, SkillView};
use crate::tui::slash;

verus! {

/// What the model reads about the tool.
pub const DESCRIPTION: &'static str = "Load a skill by name to inject specialized instructions as a System message. Use this when a task matches one of the available skills listed in the system prompt.\n\nThe skill's content provides domain-specific guidance — read it carefully and follow its instructions.\n\nWhen NOT to use: for general tasks that don't match any specific skill. Skills are for specialized workflows.";

/// The arguments of the tool.
#[derive(Clone, Debug)]
pub struct SkillArgs {
    pub name: String,
}

/// The tool, with the skills that there are.
pub struct SkillTool {
    pub registry: Vec<Skill>,
}

/// What a call does: the skill is loaded and its content returned, or the
/// model is told which skills there are.
pub open spec fn on_call(
    registry: Seq<SkillView>,
    active: Seq<(Seq<char>, Seq<char>)>,
    args: Result<SkillArgs, String>,
) -> (Seq<(Seq<char>, Seq<char>)>, Result<Seq<char>, ErrorView>) {
    match args {
        Err(e) => (active, Err(tools::undecoded(e@))),
        Ok(a) => match slash::skill_by_name(registry, a.name@) {
            Some(s) => (slash::activated(active, s.name, s.content), Ok(s.content)),
            None => (
                active,
                Err(
                    ErrorView::InvalidArgs(
                        "Unknown skill '"@ + a.name@ + "'. Available: ["@ + text::joined(
                            slash::skill_names(registry),
                            ", "@,
                        ) + "]"@,
                    ),
                ),
            ),
        },
    }
}

impl SkillTool {
    /// A tool for the skills that there are.
    pub fn new(registry: Vec<Skill>) -> (r: SkillTool)
        ensures
            r.registry@ == registry@,
    {
        SkillTool { registry }
    }

    /// The name of the tool.
    pub fn name(&self) -> (r: &'static str)
        ensures
            r@ == "skill"@,
    {
        "skill"
    }

    /// What the model reads about the tool.
    pub fn description(&self) -> (r: &'static str)
        ensures
            r@ == DESCRIPTION@,
    {
        DESCRIPTION
    }

    /// What the tool is to the model.
    pub fn to_def(&self) -> (r: ToolDef)
        ensures
            r.name@ == "skill"@,
            r.description@ == DESCRIPTION@,
            r.parameters@.len() == 1,
            r.parameters@[0].name@ == "name"@,
            r.parameters@[0].kind == ParamType::Text,
            r.parameters@[0].required,
            r.parameters@[0].description@
                == "Name of the skill to load. Must match one of the available skills listed in the system prompt."@,
    {
        let mut parameters: Vec<Param> = Vec::new();
        parameters.push(
            Param {
                name: "name",
                kind: ParamType::Text,
                required: true,
                description: "Name of the skill to load. Must match one of the available skills listed in the system prompt.",
            },
        );
        ToolDef { name: "skill", description: DESCRIPTION, parameters }
    }

    /// Loads a skill.
    pub fn execute_stream(
        &self,
        active: &mut Vec<ActiveSkill>,
        args: Result<SkillArgs, String>,
    ) -> (r: Result<String, ToolError>)
        ensures
            (app::active_view(final(active)@), tools::answer_view(r)) == on_call(
                app::skills_view(self.registry@),
                app::active_view(old(active)@),
                args,
            ),
    {
        match args {
            Err(e) => Err(reject_args(e.as_str())),
            Ok(a) => match slash::find_skill(&self.registry, a.name.as_str()) {
                Some(i) => {
                    let s = &self.registry[i];
                    slash::activate_skill(active, s.name.clone(), s.content.clone());
                    Ok(s.content.clone())
                },
                None => {
                    let names = slash::names_of(&self.registry);
                    Err(
                        ToolError::InvalidArgs(
                            text::cat5(
                                "Unknown skill '",
                                a.name.as_str(),
                                "'. Available: [",
                                text::join(&names, ", ").as_str(),
                                "]",
                            ),
                        ),
                    )
                },
            },
        }
    }
}

/// A refused call loads nothing.
pub proof fn law_refused_calls_load_nothing(
    registry: Seq<SkillView>,
    active: Seq<(Seq<char>, Seq<char>)>,
    args: Result<SkillArgs, String>,
)
    ensures
        on_call(registry, active, args).1 is Err ==> on_call(registry, active, args).0 == active,
{
}

} // verus!
