//! The GLM model catalog and the reasoning-effort contract of its newest
//! family.

use crate::text::{after_prefix, chars_of, is_some_text, lowered, same};
use vstd::prelude::*;

verus! {

/// A model of the catalog.
#[derive(Debug, Clone, Copy)]
pub struct ModelDef {
    pub id: &'static str,
    pub name: &'static str,
    pub context_window: u64,
    pub max_output_tokens: u64,
    pub reasoning: bool,
}

/// A model of the catalog, with its texts as characters.
pub ghost struct ModelRow {
    pub id: Seq<char>,
    pub name: Seq<char>,
    pub context_window: u64,
    pub max_output_tokens: u64,
    pub reasoning: bool,
}

impl View for ModelDef {
    type V = ModelRow;

    open spec fn view(&self) -> ModelRow {
        row(self.id@, self.name@, self.context_window, self.max_output_tokens, self.reasoning)
    }
}

/// A catalog row.
pub open spec fn row(
    id: Seq<char>,
    name: Seq<char>,
    context_window: u64,
    max_output_tokens: u64,
    reasoning: bool,
) -> ModelRow {
    ModelRow { id, name, context_window, max_output_tokens, reasoning }
}

/// The rows of the catalog.
pub open spec fn catalog_rows() -> Seq<ModelRow> {
    seq![
        row("glm-4.5-air"@, "GLM 4.5 Air"@, 131_072, 98_304, true),
        row("glm-4.6"@, "GLM 4.6"@, 200_000, 131_072, true),
        row("glm-4.6v"@, "GLM 4.6V"@, 131_072, 32_768, false),
        row("glm-4.7"@, "GLM 4.7"@, 200_000, 131_072, true),
        row("glm-5"@, "GLM 5"@, 200_000, 64_000, true),
        row("glm-5-turbo"@, "GLM 5 Turbo"@, 200_000, 64_000, true),
        row("glm-5v-turbo"@, "GLM 5V Turbo"@, 200_000, 131_072, false),
        row("glm-5.1"@, "GLM 5.1"@, 200_000, 64_000, true),
        row("glm-5.2"@, "GLM 5.2"@, 1_000_000, 128_000, true),
        row("glm-5.3"@, "GLM 5.3"@, 1_000_000, 128_000, true),
        row("glm-5.3-flash"@, "GLM 5.3 Flash"@, 1_000_000, 128_000, true),
    ]
}

/// The first of the rows from `from` on that has the given id.
pub open spec fn row_from(rows: Seq<ModelRow>, id: Seq<char>, from: int) -> Option<ModelRow>
    decreases rows.len() - from,
{
    if from < 0 || from >= rows.len() {
        None
    } else if rows[from].id == id {
        Some(rows[from])
    } else {
        row_from(rows, id, from + 1)
    }
}

/// The catalog row of a model.
pub open spec fn catalog_row(id: Seq<char>) -> Option<ModelRow> {
    row_from(catalog_rows(), id, 0)
}

/// The most output tokens that the catalog allows a model.
pub open spec fn catalog_ceiling(id: Seq<char>) -> Option<u64> {
    match catalog_row(id) {
        Some(row) => Some(row.max_output_tokens),
        None => None,
    }
}

/// Whether the catalog has the model as one that reasons.
pub open spec fn reasons(id: Seq<char>) -> bool {
    catalog_row(id) matches Some(row) && row.reasoning
}

fn model(
    id: &'static str,
    name: &'static str,
    context_window: u64,
    max_output_tokens: u64,
    reasoning: bool,
) -> (r: ModelDef)
    ensures
        r@ == row(id@, name@, context_window, max_output_tokens, reasoning),
{
    ModelDef { id, name, context_window, max_output_tokens, reasoning }
}

/// The catalog, in the order in which it is listed to clients.
pub fn catalog() -> (r: Vec<ModelDef>)
    ensures
        r@.map_values(|m: ModelDef| m@) == catalog_rows(),
{
    let models: Vec<ModelDef> = vec![
        model("glm-4.5-air", "GLM 4.5 Air", 131_072, 98_304, true),
        model("glm-4.6", "GLM 4.6", 200_000, 131_072, true),
        model("glm-4.6v", "GLM 4.6V", 131_072, 32_768, false),
        model("glm-4.7", "GLM 4.7", 200_000, 131_072, true),
        model("glm-5", "GLM 5", 200_000, 64_000, true),
        model("glm-5-turbo", "GLM 5 Turbo", 200_000, 64_000, true),
        model("glm-5v-turbo", "GLM 5V Turbo", 200_000, 131_072, false),
        model("glm-5.1", "GLM 5.1", 200_000, 64_000, true),
        model("glm-5.2", "GLM 5.2", 1_000_000, 128_000, true),
        model("glm-5.3", "GLM 5.3", 1_000_000, 128_000, true),
        model("glm-5.3-flash", "GLM 5.3 Flash", 1_000_000, 128_000, true),
    ];
    assert(models@.map_values(|m: ModelDef| m@) =~= catalog_rows());
    models
}

/// The model of the catalog with the given id.
pub fn model_def(id: &str) -> (r: Option<ModelDef>)
    ensures
        match r {
            Some(m) => catalog_row(id@) == Some(m@),
            None => catalog_row(id@) is None,
        },
{
    let models: Vec<ModelDef> = catalog();
    let ghost rows = models@.map_values(|m: ModelDef| m@);
    let mut i: usize = 0;
    while i < models.len()
        invariant
            i <= models@.len(),
            rows == models@.map_values(|m: ModelDef| m@),
            rows == catalog_rows(),
            catalog_row(id@) == row_from(rows, id@, i as int),
        decreases models@.len() - i,
    {
        assert(rows[i as int] == models@[i as int]@);
        if same(models[i].id, id) {
            return Some(models[i]);
        }
        i += 1;
    }
    None
}

/// Whether the catalog has the model as one that reasons.
pub fn is_reasoning_model(model: &str) -> (r: bool)
    ensures
        r == reasons(model@),
{
    match model_def(model) {
        Some(m) => m.reasoning,
        None => false,
    }
}

/// The effort levels of the GLM-5.3 family.
#[derive(Debug, Clone, Copy, PartialEq, Eq, Structural)]
pub enum Glm53Effort {
    Low,
    High,
    Max,
}

/// The name under which the upstream knows an effort level.
pub open spec fn effort_text(effort: Glm53Effort) -> Seq<char> {
    match effort {
        Glm53Effort::Low => "low"@,
        Glm53Effort::High => "high"@,
        Glm53Effort::Max => "max"@,
    }
}

impl Glm53Effort {
    /// The name under which the upstream knows the level.
    pub fn as_str(self) -> (r: &'static str)
        ensures
            r@ == effort_text(self),
    {
        match self {
            Glm53Effort::Low => "low",
            Glm53Effort::High => "high",
            Glm53Effort::Max => "max",
        }
    }
}

/// The level used when no effort is asked for.
pub const GLM53_DEFAULT_EFFORT: Glm53Effort = Glm53Effort::Max;

/// The thinking budget that goes with each level.
pub open spec fn effort_budget(effort: Glm53Effort) -> u64 {
    match effort {
        Glm53Effort::Low => 8_000,
        Glm53Effort::High => 16_000,
        Glm53Effort::Max => 32_000,
    }
}

/// The thinking budget that goes with a level.
pub fn glm53_thinking_budget(effort: Glm53Effort) -> (r: u64)
    ensures
        r == effort_budget(effort),
{
    match effort {
        Glm53Effort::Low => 8_000,
        Glm53Effort::High => 16_000,
        Glm53Effort::Max => 32_000,
    }
}

/// The thinking budget used when thinking is enabled without one.
pub const GLM53_MIN_THINKING_BUDGET: u64 = 1_024;

/// Whether a model id names the GLM-5.3 family: `glm-5.3` in any case, not
/// followed by a digit.
pub open spec fn in_glm53_family(model: Seq<char>) -> bool {
    match crate::text::strip_prefix(crate::text::lower(model), "glm-5.3"@) {
        Some(rest) => !(rest.len() > 0 && '0' <= rest[0] <= '9'),
        None => false,
    }
}

/// Whether a model id names the GLM-5.3 family (`glm-5.3`, `glm-5.3-flash`),
/// whatever its case. A digit behind the prefix names another version.
pub fn is_glm53_model(model: &str) -> (r: bool)
    ensures
        r == in_glm53_family(model@),
{
    let lower = lowered(model);
    match after_prefix(lower.as_str(), "glm-5.3") {
        Some(rest) => {
            let rest: Vec<char> = chars_of(rest.as_str());
            !(rest.len() > 0 && '0' <= rest[0] && rest[0] <= '9')
        },
        None => false,
    }
}

/// The level that a requested effort stands for.
pub open spec fn effort_of(effort: Option<Seq<char>>) -> Glm53Effort {
    match effort {
        Some(e) => if e == "none"@ || e == "minimal"@ || e == "light"@ || e == "low"@ {
            Glm53Effort::Low
        } else if e == "medium"@ || e == "high"@ {
            Glm53Effort::High
        } else {
            Glm53Effort::Max
        },
        None => Glm53Effort::Max,
    }
}

/// The level that a requested effort stands for: rounded up (`medium` is
/// `high`), and the default for an effort that is unknown or missing.
pub fn normalize_glm53_effort(effort: Option<&str>) -> (r: Glm53Effort)
    ensures
        r == effort_of(crate::text::seen_str(effort)),
{
    if is_some_text(effort, "none") || is_some_text(effort, "minimal") || is_some_text(
        effort,
        "light",
    ) || is_some_text(effort, "low") {
        Glm53Effort::Low
    } else if is_some_text(effort, "medium") || is_some_text(effort, "high") {
        Glm53Effort::High
    } else {
        GLM53_DEFAULT_EFFORT
    }
}

/// A thinking budget that leaves room below a ceiling on output tokens.
pub open spec fn fitted_budget(budget: u64, ceiling: Option<u64>) -> u64 {
    match ceiling {
        Some(max) => if max == 0 {
            0
        } else if budget < max {
            budget
        } else {
            (max - 1) as u64
        },
        None => budget,
    }
}

/// Fits a thinking budget below the model's ceiling on output tokens.
pub fn clamp_glm53_budget_to_model(budget: u64, model_max_tokens: Option<u64>) -> (r: u64)
    ensures
        r == fitted_budget(budget, model_max_tokens),
{
    match model_max_tokens {
        Some(max) => {
            let most: u64 = if max == 0 {
                0
            } else {
                max - 1
            };
            if budget < most {
                budget
            } else {
                most
            }
        },
        None => budget,
    }
}

/// The output tokens asked for when a client names none.
pub open spec fn default_max_tokens(model: Seq<char>) -> u64 {
    match catalog_ceiling(model) {
        Some(max) => max,
        None => 4096,
    }
}

/// The output tokens to ask for when a client names none: the catalog's
/// ceiling for the model.
pub fn resolve_default_max_tokens(model: &str) -> (r: u64)
    ensures
        r == default_max_tokens(model@),
{
    match model_def(model) {
        Some(m) => m.max_output_tokens,
        None => 4096,
    }
}

/// The most output tokens that the catalog allows a model.
pub fn ceiling_of(model: &str) -> (r: Option<u64>)
    ensures
        r == catalog_ceiling(model@),
{
    match model_def(model) {
        Some(m) => Some(m.max_output_tokens),
        None => None,
    }
}

/// A budget fitted to a model never reaches the model's ceiling, and is the
/// budget itself where that leaves room.
pub proof fn law_fitted_budget_leaves_room(budget: u64, ceiling: u64)
    requires
        ceiling > 0,
    ensures
        fitted_budget(budget, Some(ceiling)) < ceiling,
        budget < ceiling ==> fitted_budget(budget, Some(ceiling)) == budget,
{
}

/// What the catalog allows each model, which of them reason, and what is asked for
/// where a client names no limit.
pub proof fn law_catalog_knows_its_models(id: Seq<char>)
    ensures
        catalog_ceiling(id) == if id == "glm-4.5-air"@ {
            Some(98_304u64)
        } else if id == "glm-4.6"@ || id == "glm-4.7"@ || id == "glm-5v-turbo"@ {
            Some(131_072)
        } else if id == "glm-4.6v"@ {
            Some(32_768)
        } else if id == "glm-5"@ || id == "glm-5-turbo"@ || id == "glm-5.1"@ {
            Some(64_000)
        } else if id == "glm-5.2"@ || id == "glm-5.3"@ || id == "glm-5.3-flash"@ {
            Some(128_000)
        } else {
            None
        },
        reasons(id) <==> catalog_ceiling(id) is Some && id != "glm-4.6v"@ && id != "glm-5v-turbo"@,
        default_max_tokens(id) == match catalog_ceiling(id) {
            Some(max) => max,
            None => 4_096,
        },
{
    reveal_strlit("glm-4.5-air");
    reveal_strlit("glm-4.6");
    reveal_strlit("glm-4.6v");
    reveal_strlit("glm-4.7");
    reveal_strlit("glm-5");
    reveal_strlit("glm-5-turbo");
    reveal_strlit("glm-5v-turbo");
    reveal_strlit("glm-5.1");
    reveal_strlit("glm-5.2");
    reveal_strlit("glm-5.3");
    reveal_strlit("glm-5.3-flash");
    assert("glm-4.5-air"@.len() == 11 && "glm-4.5-air"@[4] == '4');
    assert("glm-4.6"@.len() == 7 && "glm-4.6"@[4] == '4' && "glm-4.6"@[6] == '6');
    assert("glm-4.6v"@.len() == 8);
    assert("glm-4.7"@.len() == 7 && "glm-4.7"@[4] == '4' && "glm-4.7"@[6] == '7');
    assert("glm-5"@.len() == 5);
    assert("glm-5-turbo"@.len() == 11 && "glm-5-turbo"@[4] == '5');
    assert("glm-5v-turbo"@.len() == 12);
    assert("glm-5.1"@.len() == 7 && "glm-5.1"@[4] == '5' && "glm-5.1"@[6] == '1');
    assert("glm-5.2"@.len() == 7 && "glm-5.2"@[4] == '5' && "glm-5.2"@[6] == '2');
    assert("glm-5.3"@.len() == 7 && "glm-5.3"@[4] == '5' && "glm-5.3"@[6] == '3');
    assert("glm-5.3-flash"@.len() == 13);
    reveal_with_fuel(row_from, 12);
}

/// An effort is rounded up to one of three levels, and an unknown one, or none, is
/// the highest; to each level goes its name and its budget.
pub proof fn law_efforts_are_rounded_up(effort: Option<Seq<char>>)
    ensures
        ({
            let level = effort_of(effort);
            let low = effort == Some("none"@) || effort == Some("minimal"@) || effort == Some(
                "light"@,
            ) || effort == Some("low"@);
            let high = effort == Some("medium"@) || effort == Some("high"@);
            &&& low ==> effort_text(level) == "low"@ && effort_budget(level) == 8_000
            &&& high ==> effort_text(level) == "high"@ && effort_budget(level) == 16_000
            &&& !low && !high ==> effort_text(level) == "max"@ && effort_budget(level) == 32_000
        }),
{
    reveal_strlit("none");
    reveal_strlit("minimal");
    reveal_strlit("light");
    reveal_strlit("low");
    reveal_strlit("medium");
    reveal_strlit("high");
    assert("none"@.len() == 4 && "none"@[0] == 'n');
    assert("minimal"@.len() == 7);
    assert("light"@.len() == 5);
    assert("low"@.len() == 3);
    assert("medium"@.len() == 6);
    assert("high"@.len() == 4 && "high"@[0] == 'h');
}

/// A model belongs to the family where its name begins with that of the family, in
/// letters of any size, and no digit follows.
pub proof fn law_family_is_told_by_its_name(front: Seq<char>, rest: Seq<char>)
    requires
        front.len() == 7,
        crate::text::lower(front) == "glm-5.3"@,
    ensures
        in_glm53_family(front + rest) <==> rest.len() == 0 || !('0' <= rest[0] <= '9'),
{
    reveal_strlit("glm-5.3");
    let all = crate::text::lower(front + rest);
    assert(all.take(7) =~= crate::text::lower(front));
    assert("glm-5.3"@.is_prefix_of(all));
    assert(all.skip(7) =~= crate::text::lower(rest));
}

/// A name that begins otherwise is of no model of the family.
pub proof fn law_other_names_are_of_other_families(model: Seq<char>)
    requires
        model.len() < 7 || crate::text::lower(model.take(7)) != "glm-5.3"@,
    ensures
        !in_glm53_family(model),
{
    reveal_strlit("glm-5.3");
    let all = crate::text::lower(model);
    if "glm-5.3"@.is_prefix_of(all) {
        assert(all.take(7) =~= "glm-5.3"@);
        assert(crate::text::lower(model.take(7)) =~= all.take(7));
    }
}

} // verus!
