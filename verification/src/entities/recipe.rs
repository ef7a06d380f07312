//! The recipe entity and its relationship to ingredients.
//!
//! A recipe owns an ordered list of steps and of ingredient lines, a mapping
//! from phase label to duration, and a servings value.  Ingredient amounts are
//! a closed sum type with an explicit tag in the wire representation; an
//! unknown tag or a missing sub-field is a deserialization error, never a
//! default-constructed variant.

use vstd::prelude::*;

use crate::amount::Amount;
use crate::ids::Uuid;
use crate::entities::ingredient::{diets_of, Ingredient, IngredientModel, IngredientV, ValidationError};
use crate::jsonval::{find_field_spec, find_field, JsonMember, JsonValue};

verus! {

/// How many servings a recipe yields: a range or an exact count.
#[derive(Clone, Copy, PartialEq, Eq, Structural, Debug)]
pub enum ServingsType {
    FromTo { from: u16, to: u16 },
    Exact { value: u16 },
}

/// The unit and quantity of one ingredient line.
#[derive(PartialEq, Debug)]
pub enum IngredientUnit {
    Mililiters { amount: Amount },
    Grams { amount: Amount },
    Teaspoons { amount: Amount },
    Cup { amount: Amount },
    Other { amount: Amount, unit: String },
}

/// The mathematical value of an ingredient unit.
pub ghost enum IngredientUnitV {
    Mililiters { amount: u64 },
    Grams { amount: u64 },
    Teaspoons { amount: u64 },
    Cup { amount: u64 },
    Other { amount: u64, unit: Seq<char> },
}

impl View for IngredientUnit {
    type V = IngredientUnitV;

    open spec fn view(&self) -> IngredientUnitV {
        match self {
            IngredientUnit::Mililiters { amount } => IngredientUnitV::Mililiters {
                amount: amount.bits,
            },
            IngredientUnit::Grams { amount } => IngredientUnitV::Grams { amount: amount.bits },
            IngredientUnit::Teaspoons { amount } => IngredientUnitV::Teaspoons {
                amount: amount.bits,
            },
            IngredientUnit::Cup { amount } => IngredientUnitV::Cup { amount: amount.bits },
            IngredientUnit::Other { amount, unit } => IngredientUnitV::Other {
                amount: amount.bits,
                unit: unit@,
            },
        }
    }
}

impl Clone for IngredientUnit {
    fn clone(&self) -> (res: IngredientUnit)
        ensures
            res@ == self@,
    {
        match self {
            IngredientUnit::Mililiters { amount } => IngredientUnit::Mililiters {
                amount: *amount,
            },
            IngredientUnit::Grams { amount } => IngredientUnit::Grams { amount: *amount },
            IngredientUnit::Teaspoons { amount } => IngredientUnit::Teaspoons { amount: *amount },
            IngredientUnit::Cup { amount } => IngredientUnit::Cup { amount: *amount },
            IngredientUnit::Other { amount, unit } => IngredientUnit::Other {
                amount: *amount,
                unit: unit.clone(),
            },
        }
    }
}

/// The number under `o`, if `o` is a number.
pub open spec fn num_of(o: Option<JsonValue>) -> Option<u64> {
    match o {
        Some(JsonValue::Num(a)) => Some(a.bits),
        _ => None,
    }
}

/// The string under `o`, if `o` is a string.
pub open spec fn str_of(o: Option<JsonValue>) -> Option<Seq<char>> {
    match o {
        Some(JsonValue::Str(s)) => Some(s@),
        _ => None,
    }
}

/// What an amount column decodes to: the wire shape is an object
/// `{tag, amount, unit?}`; an unknown tag, a missing field or a field of the
/// wrong kind decodes to nothing.
pub open spec fn unit_from_json_spec(j: JsonValue) -> Option<IngredientUnitV> {
    match j {
        JsonValue::Obj(fields) => {
            let tag = str_of(find_field_spec(fields@, "tag"@));
            let amount = num_of(find_field_spec(fields@, "amount"@));
            let unit = str_of(find_field_spec(fields@, "unit"@));
            match (tag, amount) {
                (Some(t), Some(a)) => {
                    if t == "mililiters"@ {
                        Some(IngredientUnitV::Mililiters { amount: a })
                    } else if t == "grams"@ {
                        Some(IngredientUnitV::Grams { amount: a })
                    } else if t == "teaspoons"@ {
                        Some(IngredientUnitV::Teaspoons { amount: a })
                    } else if t == "cup"@ {
                        Some(IngredientUnitV::Cup { amount: a })
                    } else if t == "other"@ {
                        match unit {
                            Some(u) => Some(IngredientUnitV::Other { amount: a, unit: u }),
                            None => None,
                        }
                    } else {
                        None
                    }
                },
                _ => None,
            }
        },
        _ => None,
    }
}

impl IngredientUnit {
    /// Decodes an amount column; `None` when the shape does not match.
    pub fn from_json(j: &JsonValue) -> (r: Option<IngredientUnit>)
        ensures
            match r {
                Some(u) => unit_from_json_spec(*j) == Some(u@),
                None => unit_from_json_spec(*j) is None,
            },
    {
        let fields = match j {
            JsonValue::Obj(fields) => fields,
            _ => {
                return None;
            },
        };
        let tag = match find_field(fields, "tag") {
            Some(v) => match v {
                JsonValue::Str(t) => t,
                _ => {
                    return None;
                },
            },
            None => {
                return None;
            },
        };
        let amount = match find_field(fields, "amount") {
            Some(v) => match v {
                JsonValue::Num(a) => *a,
                _ => {
                    return None;
                },
            },
            None => {
                return None;
            },
        };
        if crate::text::str_eq(tag.as_str(), "mililiters") {
            Some(IngredientUnit::Mililiters { amount })
        } else if crate::text::str_eq(tag.as_str(), "grams") {
            Some(IngredientUnit::Grams { amount })
        } else if crate::text::str_eq(tag.as_str(), "teaspoons") {
            Some(IngredientUnit::Teaspoons { amount })
        } else if crate::text::str_eq(tag.as_str(), "cup") {
            Some(IngredientUnit::Cup { amount })
        } else if crate::text::str_eq(tag.as_str(), "other") {
            match find_field(fields, "unit") {
                Some(v) => match v {
                    JsonValue::Str(u) => Some(
                        IngredientUnit::Other { amount, unit: u.clone() },
                    ),
                    _ => None,
                },
                None => None,
            }
        } else {
            None
        }
    }

    /// Encodes the unit as the wire object `{tag, amount, unit?}`; decoding
    /// the result gives the unit back.
    pub fn to_json(&self) -> (r: JsonValue)
        ensures
            unit_from_json_spec(r) == Some(self@),
    {
        let tag: &str = match self {
            IngredientUnit::Mililiters { .. } => "mililiters",
            IngredientUnit::Grams { .. } => "grams",
            IngredientUnit::Teaspoons { .. } => "teaspoons",
            IngredientUnit::Cup { .. } => "cup",
            IngredientUnit::Other { .. } => "other",
        };
        let amount: Amount = match self {
            IngredientUnit::Mililiters { amount } => *amount,
            IngredientUnit::Grams { amount } => *amount,
            IngredientUnit::Teaspoons { amount } => *amount,
            IngredientUnit::Cup { amount } => *amount,
            IngredientUnit::Other { amount, .. } => *amount,
        };
        let mut fields: Vec<JsonMember> = Vec::new();
        fields.push(JsonMember { key: "tag".to_owned(), value: JsonValue::Str(tag.to_owned()) });
        fields.push(JsonMember { key: "amount".to_owned(), value: JsonValue::Num(amount) });
        if let IngredientUnit::Other { unit, .. } = self {
            fields.push(
                JsonMember { key: "unit".to_owned(), value: JsonValue::Str(unit.clone()) },
            );
        }
        let ghost fs = fields@;
        let r = JsonValue::Obj(fields);
        proof {
            reveal_strlit("tag");
            reveal_strlit("amount");
            reveal_strlit("unit");
            reveal_strlit("mililiters");
            reveal_strlit("grams");
            reveal_strlit("teaspoons");
            reveal_strlit("cup");
            reveal_strlit("other");
            assert("tag"@.len() == 3);
            assert("amount"@.len() == 6);
            assert("unit"@.len() == 4);
            assert("mililiters"@.len() == 10);
            assert("grams"@.len() == 5);
            assert("teaspoons"@.len() == 9);
            assert("cup"@.len() == 3);
            assert("other"@.len() == 5);
            assert("tag"@ != "amount"@);
            assert("tag"@ != "unit"@);
            assert("amount"@ != "unit"@);
            let fs1 = fs.drop_first();
            let fs2 = fs1.drop_first();
            assert(fs1[0] == fs[1]);
            assert(find_field_spec(fs, "tag"@) == Some(fs[0].value));
            assert(find_field_spec(fs, "amount"@) == find_field_spec(fs1, "amount"@));
            assert(find_field_spec(fs1, "amount"@) == Some(fs[1].value));
            assert(find_field_spec(fs, "unit"@) == find_field_spec(fs1, "unit"@));
            assert(find_field_spec(fs1, "unit"@) == find_field_spec(fs2, "unit"@));
            if fs.len() == 3 {
                assert(fs2[0] == fs[2]);
                assert(find_field_spec(fs2, "unit"@) == Some(fs[2].value));
            } else {
                assert(fs2.len() == 0);
                assert(find_field_spec(fs2, "unit"@) is None);
            }
            assert("mililiters"@ != "grams"@);
            assert("mililiters"@ != "teaspoons"@);
            assert("mililiters"@ != "cup"@);
            assert("mililiters"@ != "other"@);
            assert("grams"@ != "teaspoons"@);
            assert("grams"@ != "cup"@);
            assert("grams"@ != "other"@ ) by {
                assert("grams"@[0] != "other"@[0]);
            }
            assert("teaspoons"@ != "cup"@);
            assert("teaspoons"@ != "other"@);
            assert("cup"@ != "other"@);
            assert(unit_from_json_spec(r) == Some(self@));
        }
        r
    }
}

/// One ingredient line of a recipe: which ingredient, how much, optional
/// free-form notes, and whether the line is optional.
#[derive(PartialEq, Debug)]
pub struct IngredientWithAmount {
    pub ingredient: Ingredient,
    pub amount: IngredientUnit,
    pub notes: Option<String>,
    pub optional: bool,
}

/// The mathematical value of an ingredient line.
pub ghost struct IngredientWithAmountV {
    pub ingredient: IngredientV,
    pub amount: IngredientUnitV,
    pub notes: Option<Seq<char>>,
    pub optional: bool,
}

impl View for IngredientWithAmount {
    type V = IngredientWithAmountV;

    open spec fn view(&self) -> IngredientWithAmountV {
        IngredientWithAmountV {
            ingredient: self.ingredient@,
            amount: self.amount@,
            notes: match self.notes {
                Some(n) => Some(n@),
                None => None,
            },
            optional: self.optional,
        }
    }
}

impl Clone for IngredientWithAmount {
    fn clone(&self) -> (res: IngredientWithAmount)
        ensures
            res@ == self@,
    {
        IngredientWithAmount {
            ingredient: self.ingredient.clone(),
            amount: self.amount.clone(),
            notes: match &self.notes {
                Some(n) => Some(n.clone()),
                None => None,
            },
            optional: self.optional,
        }
    }
}

/// One ingredient line as a persistence row: the ingredient not yet
/// validated, the amount still a structured value.
pub struct IngredientWithAmountModel {
    pub recipe_id: Uuid,
    pub ingredient: IngredientModel,
    pub amount: JsonValue,
    pub notes: Option<String>,
    pub optional: bool,
}

impl IngredientWithAmount {
    /// Validates a persistence row into an ingredient line.  A malformed
    /// amount fails with `DeserializationFailed("amount")`; an invalid
    /// ingredient fails as ingredient validation does.
    pub fn from_model(model: &IngredientWithAmountModel) -> (r: Result<
        IngredientWithAmount,
        ValidationError,
    >)
        ensures
            match r {
                Ok(l) => unit_from_json_spec(model.amount) == Some(l@.amount) && l@.ingredient.id
                    == model.ingredient.id.bits && l@.ingredient.name == model.ingredient.name@
                    && l@.ingredient.description == model.ingredient.description@
                    && l@.ingredient.diet_violations == diets_of(model.ingredient.diet_violations@)
                    && l@.notes == match model.notes {
                    Some(n) => Some(n@),
                    None => None::<Seq<char>>,
                } && l@.optional == model.optional && l@.ingredient.wf(),
                Err(e) => (unit_from_json_spec(model.amount) is None && (e
                    matches ValidationError::DeserializationFailed(f) && f@ == "amount"@)) || (
                unit_from_json_spec(model.amount) is Some && (e
                    matches ValidationError::EmptyField(f) && ((model.ingredient.name@.len() == 0
                    && f@ == "name"@) || (model.ingredient.name@.len() > 0
                    && model.ingredient.description@.len() == 0 && f@ == "description"@)))),
            },
            r is Ok <==> (unit_from_json_spec(model.amount) is Some
                && model.ingredient.name@.len() > 0 && model.ingredient.description@.len() > 0),
    {
        let amount = match IngredientUnit::from_json(&model.amount) {
            Some(a) => a,
            None => {
                return Err(ValidationError::DeserializationFailed("amount"));
            },
        };
        let ingredient = match Ingredient::from_model(&model.ingredient) {
            Ok(i) => i,
            Err(e) => {
                return Err(e);
            },
        };
        Ok(
            IngredientWithAmount {
                ingredient,
                amount,
                notes: match &model.notes {
                    Some(n) => Some(n.clone()),
                    None => None,
                },
                optional: model.optional,
            },
        )
    }
}

/// One phase of a recipe's preparation and how long it takes.
#[derive(PartialEq, Debug)]
pub struct TimeEntry {
    pub phase: String,
    pub seconds: u64,
}

impl View for TimeEntry {
    type V = (Seq<char>, u64);

    open spec fn view(&self) -> (Seq<char>, u64) {
        (self.phase@, self.seconds)
    }
}

impl Clone for TimeEntry {
    fn clone(&self) -> (res: TimeEntry)
        ensures
            res@ == self@,
    {
        TimeEntry { phase: self.phase.clone(), seconds: self.seconds }
    }
}

/// The views of a sequence of strings.
pub open spec fn strings_view(v: Seq<String>) -> Seq<Seq<char>> {
    v.map_values(|s: String| s@)
}

/// The views of a sequence of time entries.
pub open spec fn time_view(v: Seq<TimeEntry>) -> Seq<(Seq<char>, u64)> {
    v.map_values(|t: TimeEntry| t@)
}

/// The views of a sequence of ingredient lines.
pub open spec fn lines_view(v: Seq<IngredientWithAmount>) -> Seq<IngredientWithAmountV> {
    v.map_values(|l: IngredientWithAmount| l@)
}

/// A recipe.  Timestamps are managed by the repository that persists it.
#[derive(PartialEq, Debug)]
pub struct Recipe {
    pub id: Uuid,
    pub name: String,
    pub description: String,
    pub steps: Vec<String>,
    pub ingredients: Vec<IngredientWithAmount>,
    pub time: Vec<TimeEntry>,
    pub servings: ServingsType,
    pub created_at: u64,
    pub updated_at: u64,
}

/// The mathematical value of a recipe.
pub ghost struct RecipeV {
    pub id: u128,
    pub name: Seq<char>,
    pub description: Seq<char>,
    pub steps: Seq<Seq<char>>,
    pub ingredients: Seq<IngredientWithAmountV>,
    pub time: Seq<(Seq<char>, u64)>,
    pub servings: ServingsType,
    pub created_at: u64,
    pub updated_at: u64,
}

impl View for Recipe {
    type V = RecipeV;

    open spec fn view(&self) -> RecipeV {
        RecipeV {
            id: self.id.bits,
            name: self.name@,
            description: self.description@,
            steps: strings_view(self.steps@),
            ingredients: lines_view(self.ingredients@),
            time: time_view(self.time@),
            servings: self.servings,
            created_at: self.created_at,
            updated_at: self.updated_at,
        }
    }
}

impl RecipeV {
    /// Two recipes agree on everything but their repository-managed
    /// timestamps.
    pub open spec fn same_core(self, other: RecipeV) -> bool {
        self.id == other.id && self.name == other.name && self.description == other.description
            && self.steps == other.steps && self.ingredients == other.ingredients && self.time
            == other.time && self.servings == other.servings
    }

}

/// Copies a vector of strings.
pub fn copy_strings(v: &Vec<String>) -> (r: Vec<String>)
    ensures
        r@ == v@,
{
    let mut out: Vec<String> = Vec::new();
    let mut i: usize = 0;
    while i < v.len()
        invariant
            i <= v@.len(),
            out@ == v@.subrange(0, i as int),
        decreases v@.len() - i,
    {
        out.push(v[i].clone());
        i = i + 1;
    }
    proof {
        assert(v@.subrange(0, v@.len() as int) =~= v@);
    }
    out
}

/// Copies a vector of time entries.
pub fn copy_time(v: &Vec<TimeEntry>) -> (r: Vec<TimeEntry>)
    ensures
        time_view(r@) == time_view(v@),
{
    let mut out: Vec<TimeEntry> = Vec::new();
    let mut i: usize = 0;
    while i < v.len()
        invariant
            i <= v@.len(),
            out@.len() == i,
            forall|j: int| 0 <= j < i ==> out@[j]@ == v@[j]@,
        decreases v@.len() - i,
    {
        out.push(v[i].clone());
        i = i + 1;
    }
    proof {
        assert(time_view(out@) =~= time_view(v@));
    }
    out
}

/// Copies a vector of ingredient lines.
pub fn copy_lines(v: &Vec<IngredientWithAmount>) -> (r: Vec<IngredientWithAmount>)
    ensures
        lines_view(r@) == lines_view(v@),
{
    let mut out: Vec<IngredientWithAmount> = Vec::new();
    let mut i: usize = 0;
    while i < v.len()
        invariant
            i <= v@.len(),
            out@.len() == i,
            forall|j: int| 0 <= j < i ==> out@[j]@ == v@[j]@,
        decreases v@.len() - i,
    {
        out.push(v[i].clone());
        i = i + 1;
    }
    proof {
        assert(lines_view(out@) =~= lines_view(v@));
    }
    out
}

impl Clone for Recipe {
    fn clone(&self) -> (res: Recipe)
        ensures
            res@ == self@,
    {
        Recipe {
            id: self.id,
            name: self.name.clone(),
            description: self.description.clone(),
            steps: copy_strings(&self.steps),
            ingredients: copy_lines(&self.ingredients),
            time: copy_time(&self.time),
            servings: self.servings,
            created_at: self.created_at,
            updated_at: self.updated_at,
        }
    }
}

/// A partial update of a recipe: a present field replaces the stored one,
/// an absent field leaves it unchanged.
#[derive(Debug)]
pub struct RecipeChangeset {
    pub name: Option<String>,
    pub description: Option<String>,
    pub steps: Option<Vec<String>>,
    pub time: Option<Vec<TimeEntry>>,
    pub servings: Option<ServingsType>,
}

/// The mathematical value of a changeset.
pub ghost struct RecipeChangesetV {
    pub name: Option<Seq<char>>,
    pub description: Option<Seq<char>>,
    pub steps: Option<Seq<Seq<char>>>,
    pub time: Option<Seq<(Seq<char>, u64)>>,
    pub servings: Option<ServingsType>,
}

impl View for RecipeChangeset {
    type V = RecipeChangesetV;

    open spec fn view(&self) -> RecipeChangesetV {
        RecipeChangesetV {
            name: match self.name {
                Some(n) => Some(n@),
                None => None,
            },
            description: match self.description {
                Some(d) => Some(d@),
                None => None,
            },
            steps: match self.steps {
                Some(st) => Some(strings_view(st@)),
                None => None,
            },
            time: match self.time {
                Some(t) => Some(time_view(t@)),
                None => None,
            },
            servings: self.servings,
        }
    }
}

impl RecipeChangesetV {
    /// Whether applying the changeset to `r` would change any field: a field
    /// both present and different from the stored value.
    pub open spec fn changes(self, r: RecipeV) -> bool {
        ||| (self.name matches Some(v) && v != r.name)
        ||| (self.description matches Some(v) && v != r.description)
        ||| (self.steps matches Some(v) && v != r.steps)
        ||| (self.time matches Some(v) && v != r.time)
        ||| (self.servings matches Some(v) && v != r.servings)
    }

    /// The recipe after the changeset: present fields replaced, absent fields
    /// kept; `updated_at` becomes `t` exactly when some field changed.
    pub open spec fn apply(self, r: RecipeV, t: u64) -> RecipeV {
        RecipeV {
            id: r.id,
            name: match self.name {
                Some(v) => v,
                None => r.name,
            },
            description: match self.description {
                Some(v) => v,
                None => r.description,
            },
            steps: match self.steps {
                Some(v) => v,
                None => r.steps,
            },
            time: match self.time {
                Some(v) => v,
                None => r.time,
            },
            servings: match self.servings {
                Some(v) => v,
                None => r.servings,
            },
            ingredients: r.ingredients,
            created_at: r.created_at,
            updated_at: if self.changes(r) {
                t
            } else {
                r.updated_at
            },
        }
    }
}

/// A changeset updates exactly the fields it names: an absent field is kept,
/// a present field is replaced, the ingredient lines and `created_at` are
/// never touched, and `updated_at` is bumped to the update instant if and
/// only if some named field actually differs from the stored value.
pub proof fn changeset_updates_only_named_fields(cs: RecipeChangesetV, r: RecipeV, t: u64)
    ensures
        cs.name is None ==> cs.apply(r, t).name == r.name,
        cs.name matches Some(v) ==> cs.apply(r, t).name == v,
        cs.description is None ==> cs.apply(r, t).description == r.description,
        cs.description matches Some(v) ==> cs.apply(r, t).description == v,
        cs.steps is None ==> cs.apply(r, t).steps == r.steps,
        cs.steps matches Some(v) ==> cs.apply(r, t).steps == v,
        cs.time is None ==> cs.apply(r, t).time == r.time,
        cs.time matches Some(v) ==> cs.apply(r, t).time == v,
        cs.servings is None ==> cs.apply(r, t).servings == r.servings,
        cs.servings matches Some(v) ==> cs.apply(r, t).servings == v,
        cs.apply(r, t).ingredients == r.ingredients,
        cs.apply(r, t).created_at == r.created_at,
        cs.apply(r, t).id == r.id,
        cs.changes(r) ==> cs.apply(r, t).updated_at == t,
        !cs.changes(r) ==> cs.apply(r, t) == r,
{
}

} // verus!
