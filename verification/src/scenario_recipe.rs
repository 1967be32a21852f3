//! Apothecary recipes: what each recipe makes, what it consumes, and its price.

use vstd::prelude::*;

use crate::scenario_balance::PositiveInteger;

verus! {

/// A recipe catalog, in authored order.
#[derive(Clone, Debug, PartialEq)]
pub struct RecipeCatalogFile(pub Vec<RecipeDefinition>);

impl RecipeCatalogFile {
    /// The recipes, in authored order.
    pub fn entries(&self) -> (r: &[RecipeDefinition])
        ensures
            r@ == self.0@,
    {
        self.0.as_slice()
    }
}

/// One recipe.
#[derive(Clone, Debug, PartialEq)]
pub struct RecipeDefinition {
    pub id: String,
    pub scroll_name: String,
    pub output: RecipeOutput,
    /// Whether the output may be held only once.
    pub unique_output: bool,
    pub inputs: RecipeInputs,
    pub gp_cost: u32,
    /// The story flag that unlocks the recipe, if any.
    pub unlock_flag: Option<String>,
}

/// What a recipe makes.
#[derive(Clone, Debug, PartialEq, Eq)]
pub struct RecipeOutput {
    pub item: String,
    /// How many; one when the source omits it.
    pub qty: PositiveInteger,
}

/// What a recipe consumes.
#[derive(Clone, Debug, Default, PartialEq, Eq)]
pub struct RecipeInputs {
    pub items: Vec<ItemIngredient>,
    pub mc: Vec<MagicCoreIngredient>,
}

/// An item a recipe consumes.
#[derive(Clone, Debug, PartialEq, Eq)]
pub struct ItemIngredient {
    pub id: String,
    pub qty: PositiveInteger,
}

/// Magic cores of one size a recipe consumes.
#[derive(Clone, Copy, Debug, PartialEq, Eq, Structural)]
pub struct MagicCoreIngredient {
    pub size: MagicCoreSize,
    pub qty: PositiveInteger,
}

/// The size of a magic core.
#[derive(Clone, Copy, Debug, PartialEq, Eq, Structural)]
pub enum MagicCoreSize {
    XS,
    S,
    M,
    L,
    XL,
}

} // verus!
