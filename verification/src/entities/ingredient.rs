//! The ingredient entity.
//!
//! An ingredient is never constructed invalid: its name and description are
//! typed wrappers that only non-empty strings can enter, and its diet-violation
//! tags come from a closed enumeration — unknown tags are silently dropped,
//! never an error.

use vstd::prelude::*;

use crate::ids::Uuid;
use crate::text::{ascii_ci_eq, str_ci_eq};

verus! {

/// Why a value failed validation into an entity.
#[derive(Debug)]
pub enum ValidationError {
    /// The named field was empty.
    EmptyField(&'static str),
    /// The named field did not match the expected structured shape.
    DeserializationFailed(&'static str),
}

/// An ingredient's name: any non-empty string.
#[derive(PartialEq, Debug)]
pub struct IngredientName(pub String);

impl Clone for IngredientName {
    fn clone(&self) -> (res: IngredientName)
        ensures
            res@ == self@,
    {
        IngredientName(self.0.clone())
    }
}

impl View for IngredientName {
    type V = Seq<char>;

    open spec fn view(&self) -> Seq<char> {
        self.0@
    }
}

impl IngredientName {
    /// Wraps a non-empty string; an empty one is rejected as `EmptyField("name")`.
    pub fn new(value: &str) -> (r: Result<IngredientName, ValidationError>)
        ensures
            match r {
                Ok(n) => n@ == value@ && value@.len() > 0,
                Err(e) => value@.len() == 0 && (e matches ValidationError::EmptyField(f) && f@
                    == "name"@),
            },
    {
        if value.is_empty() {
            Err(ValidationError::EmptyField("name"))
        } else {
            Ok(IngredientName(value.to_owned()))
        }
    }

    /// The wrapped string.
    pub fn as_str(&self) -> (r: &str)
        ensures
            r@ == self@,
    {
        self.0.as_str()
    }
}

/// An ingredient's description: any non-empty string.
#[derive(PartialEq, Debug)]
pub struct IngredientDescription(pub String);

impl Clone for IngredientDescription {
    fn clone(&self) -> (res: IngredientDescription)
        ensures
            res@ == self@,
    {
        IngredientDescription(self.0.clone())
    }
}

impl View for IngredientDescription {
    type V = Seq<char>;

    open spec fn view(&self) -> Seq<char> {
        self.0@
    }
}

impl IngredientDescription {
    /// Wraps a non-empty string; an empty one is rejected as
    /// `EmptyField("description")`.
    pub fn new(value: &str) -> (r: Result<IngredientDescription, ValidationError>)
        ensures
            match r {
                Ok(d) => d@ == value@ && value@.len() > 0,
                Err(e) => value@.len() == 0 && (e matches ValidationError::EmptyField(f) && f@
                    == "description"@),
            },
    {
        if value.is_empty() {
            Err(ValidationError::EmptyField("description"))
        } else {
            Ok(IngredientDescription(value.to_owned()))
        }
    }

    /// The wrapped string.
    pub fn as_str(&self) -> (r: &str)
        ensures
            r@ == self@,
    {
        self.0.as_str()
    }
}

/// The closed enumeration of diets an ingredient can violate.
#[derive(Clone, Copy, PartialEq, Eq, Structural, Debug)]
pub enum DietViolations {
    Vegan,
    Vegetarian,
    GlutenFree,
}

/// The canonical tag of each diet violation.
pub open spec fn diet_tag(d: DietViolations) -> Seq<char> {
    match d {
        DietViolations::Vegan => "vegan"@,
        DietViolations::Vegetarian => "vegetarian"@,
        DietViolations::GlutenFree => "gluten_free"@,
    }
}

/// The diet violation a free-form tag maps to, matched ASCII-case-
/// insensitively against the canonical tags; `None` for an unknown tag.
pub open spec fn diet_of_tag(tag: Seq<char>) -> Option<DietViolations> {
    if ascii_ci_eq(tag, "vegan"@) {
        Some(DietViolations::Vegan)
    } else if ascii_ci_eq(tag, "vegetarian"@) {
        Some(DietViolations::Vegetarian)
    } else if ascii_ci_eq(tag, "gluten_free"@) {
        Some(DietViolations::GlutenFree)
    } else {
        None
    }
}

impl DietViolations {
    /// Maps a free-form tag to the enumeration, `None` for an unknown tag.
    pub fn from_tag(tag: &str) -> (r: Option<DietViolations>)
        ensures
            r == diet_of_tag(tag@),
    {
        if str_ci_eq(tag, "vegan") {
            Some(DietViolations::Vegan)
        } else if str_ci_eq(tag, "vegetarian") {
            Some(DietViolations::Vegetarian)
        } else if str_ci_eq(tag, "gluten_free") {
            Some(DietViolations::GlutenFree)
        } else {
            None
        }
    }

    /// The canonical tag, for adapters and event payloads.
    pub fn as_tag(&self) -> (r: &'static str)
        ensures
            r@ == diet_tag(*self),
    {
        match self {
            DietViolations::Vegan => "vegan",
            DietViolations::Vegetarian => "vegetarian",
            DietViolations::GlutenFree => "gluten_free",
        }
    }
}

/// The diet violations that survive mapping a list of free-form tags:
/// tags that map, in input order; unknown tags dropped, never an error.
pub open spec fn diets_of(tags: Seq<String>) -> Seq<DietViolations>
    decreases tags.len(),
{
    if tags.len() == 0 {
        Seq::empty()
    } else {
        let rest = diets_of(tags.drop_last());
        match diet_of_tag(tags.last()@) {
            Some(d) => rest.push(d),
            None => rest,
        }
    }
}

/// Every surviving diet violation is the image of some input tag: mapping a
/// tag list never invents a violation, whatever the unknown tags were.
pub proof fn diets_of_only_known(tags: Seq<String>)
    ensures
        forall|i: int|
            0 <= i < diets_of(tags).len() ==> exists|j: int|
                0 <= j < tags.len() && diet_of_tag(tags[j]@) == Some(#[trigger] diets_of(tags)[i]),
    decreases tags.len(),
{
    if tags.len() > 0 {
        diets_of_only_known(tags.drop_last());
        assert forall|i: int| 0 <= i < diets_of(tags).len() implies exists|j: int|
            0 <= j < tags.len() && diet_of_tag(tags[j]@) == Some(
            #[trigger] diets_of(tags)[i],
        ) by {
            let rest = diets_of(tags.drop_last());
            if i < rest.len() {
                let j = choose|j: int|
                    0 <= j < tags.drop_last().len() && diet_of_tag(tags.drop_last()[j]@) == Some(
                        rest[i],
                    );
                assert(tags.drop_last()[j] == tags[j]);
            } else {
                assert(diet_of_tag(tags[tags.len() - 1]@) == Some(diets_of(tags)[i]));
            }
        }
    }
}

/// Each canonical tag maps back to its own diet violation: emitting a tag
/// and mapping it again is the identity.
pub proof fn canonical_tags_round_trip(d: DietViolations)
    ensures
        diet_of_tag(diet_tag(d)) == Some(d),
{
    reveal_strlit("vegan");
    reveal_strlit("vegetarian");
    reveal_strlit("gluten_free");
    assert("vegan"@.len() == 5);
    assert("vegetarian"@.len() == 10);
    assert("gluten_free"@.len() == 11);
}

/// The set of diets an ingredient violates.
#[derive(PartialEq, Debug)]
pub struct WhichDiets(pub Vec<DietViolations>);

impl Clone for WhichDiets {
    fn clone(&self) -> (res: WhichDiets)
        ensures
            res@ == self@,
    {
        let mut out: Vec<DietViolations> = Vec::new();
        let mut i: usize = 0;
        while i < self.0.len()
            invariant
                i <= self@.len(),
                out@ == self@.subrange(0, i as int),
            decreases self@.len() - i,
        {
            out.push(self.0[i]);
            i = i + 1;
        }
        proof {
            assert(self@.subrange(0, self@.len() as int) =~= self@);
        }
        WhichDiets(out)
    }
}

impl View for WhichDiets {
    type V = Seq<DietViolations>;

    open spec fn view(&self) -> Seq<DietViolations> {
        self.0@
    }
}

impl WhichDiets {
    /// No violations.
    pub fn new() -> (r: WhichDiets)
        ensures
            r@ == Seq::<DietViolations>::empty(),
    {
        WhichDiets(Vec::new())
    }

    /// Maps free-form tags to the enumeration, dropping unknown tags.
    pub fn from_strings(tags: &Vec<String>) -> (r: WhichDiets)
        ensures
            r@ == diets_of(tags@),
    {
        let mut out: Vec<DietViolations> = Vec::new();
        let mut i: usize = 0;
        while i < tags.len()
            invariant
                i <= tags@.len(),
                out@ == diets_of(tags@.subrange(0, i as int)),
            decreases tags@.len() - i,
        {
            proof {
                assert(tags@.subrange(0, i + 1).drop_last() =~= tags@.subrange(0, i as int));
                assert(tags@.subrange(0, i + 1).last() == tags@[i as int]);
            }
            match DietViolations::from_tag(tags[i].as_str()) {
                Some(d) => out.push(d),
                None => (),
            }
            i = i + 1;
        }
        proof {
            assert(tags@.subrange(0, tags@.len() as int) =~= tags@);
        }
        WhichDiets(out)
    }

    /// Whether `d` is among the violations.
    pub fn contains(&self, d: &DietViolations) -> (r: bool)
        ensures
            r == self@.contains(*d),
    {
        let mut i: usize = 0;
        while i < self.0.len()
            invariant
                i <= self@.len(),
                forall|j: int| 0 <= j < i ==> self@[j] != *d,
            decreases self@.len() - i,
        {
            if self.0[i] == *d {
                return true;
            }
            i = i + 1;
        }
        false
    }

    /// How many diets are violated.
    pub fn len(&self) -> (r: usize)
        ensures
            r == self@.len(),
    {
        self.0.len()
    }
}

/// A validated ingredient.
#[derive(PartialEq, Debug)]
pub struct Ingredient {
    pub id: Uuid,
    pub name: IngredientName,
    pub description: IngredientDescription,
    pub diet_violations: WhichDiets,
}

/// The mathematical value of an ingredient.
pub ghost struct IngredientV {
    pub id: u128,
    pub name: Seq<char>,
    pub description: Seq<char>,
    pub diet_violations: Seq<DietViolations>,
}

impl View for Ingredient {
    type V = IngredientV;

    open spec fn view(&self) -> IngredientV {
        IngredientV {
            id: self.id.bits,
            name: self.name@,
            description: self.description@,
            diet_violations: self.diet_violations@,
        }
    }
}

impl Clone for Ingredient {
    fn clone(&self) -> (res: Ingredient)
        ensures
            res@ == self@,
    {
        Ingredient {
            id: self.id,
            name: self.name.clone(),
            description: self.description.clone(),
            diet_violations: self.diet_violations.clone(),
        }
    }
}

impl IngredientV {
    /// A well-formed ingredient has a non-empty name and description.
    pub open spec fn wf(self) -> bool {
        self.name.len() > 0 && self.description.len() > 0
    }
}

/// An ingredient as a persistence row: plain strings, not yet validated.
#[derive(PartialEq, Debug)]
pub struct IngredientModel {
    pub id: Uuid,
    pub name: String,
    pub description: String,
    pub diet_violations: Vec<String>,
}

impl Ingredient {
    /// Validates a persistence row into an ingredient.  Fails with
    /// `EmptyField("name")` on an empty name, else `EmptyField("description")`
    /// on an empty description; unknown diet tags are dropped, never an error.
    pub fn from_model(model: &IngredientModel) -> (r: Result<Ingredient, ValidationError>)
        ensures
            match r {
                Ok(i) => i@.id == model.id.bits && i@.name == model.name@ && i@.description
                    == model.description@ && i@.diet_violations == diets_of(model.diet_violations@)
                    && i@.wf(),
                Err(e) => e matches ValidationError::EmptyField(f) && ((model.name@.len() == 0
                    && f@ == "name"@) || (model.name@.len() > 0 && model.description@.len() == 0
                    && f@ == "description"@)),
            },
            (model.name@.len() > 0 && model.description@.len() > 0) <==> r is Ok,
    {
        let name = match IngredientName::new(model.name.as_str()) {
            Ok(n) => n,
            Err(e) => {
                return Err(e);
            },
        };
        let description = match IngredientDescription::new(model.description.as_str()) {
            Ok(d) => d,
            Err(e) => {
                return Err(e);
            },
        };
        Ok(
            Ingredient {
                id: model.id,
                name,
                description,
                diet_violations: WhichDiets::from_strings(&model.diet_violations),
            },
        )
    }
}

} // verus!
