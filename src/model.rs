use vstd::prelude::*;

verus! {

/// A curated web resource listed in a category.
pub struct GardenItem {
    pub name: String,
    pub homepage_url: String,
    pub logo: Option<String>,
    pub repo_url: Option<String>,
    pub project_url: Option<String>,
    pub twitter: Option<String>,
    pub description: Option<String>,
}

/// A pointer to another garden document, by name and location.
pub struct GardenReference {
    pub name: String,
    pub url: String,
    pub description: Option<String>,
    pub logo: Option<String>,
    pub version: Option<String>,
}

/// A named group of items; categories nest to any depth and form a tree.
pub struct Category {
    pub name: String,
    pub description: Option<String>,
    pub icon_color: Option<String>,
    pub items: Option<Vec<GardenItem>>,
    pub categories: Option<Vec<Category>>,
    pub garden_refs: Option<Vec<GardenReference>>,
}

/// Someone who looks after a garden.
pub struct Maintainer {
    pub name: String,
    pub email: Option<String>,
    pub url: Option<String>,
}

/// Presentation colours of a garden; none of them is checked to be a colour.
pub struct Theme {
    pub primary_color: Option<String>,
    pub secondary_color: Option<String>,
    pub background_color: Option<String>,
    pub text_color: Option<String>,
}

/// The root record: a named, versioned collection of categories.
pub struct Garden {
    pub name: String,
    pub description: Option<String>,
    pub version: String,
    pub categories: Vec<Category>,
    pub maintainers: Option<Vec<Maintainer>>,
    pub created_at: Option<String>,
    pub updated_at: Option<String>,
    pub theme: Option<Theme>,
    pub supergardens: Option<Vec<GardenReference>>,
    pub subgardens: Option<Vec<GardenReference>>,
}

/// Deprecated flat item of the older garden shape, which listed items
/// directly on the garden. It is a depth-one special case of `Category`.
pub struct Sprout {
    pub name: String,
    pub homepage_url: String,
    pub logo: Option<String>,
    pub repo_url: Option<String>,
    pub project_url: Option<String>,
    pub twitter: Option<String>,
    pub description: Option<String>,
}

impl Sprout {
    /// The same resource as an item of the category-based shape.
    pub fn into_item(self) -> (r: GardenItem)
        ensures
            r.name == self.name,
            r.homepage_url == self.homepage_url,
            r.logo == self.logo,
            r.repo_url == self.repo_url,
            r.project_url == self.project_url,
            r.twitter == self.twitter,
            r.description == self.description,
    {
        GardenItem {
            name: self.name,
            homepage_url: self.homepage_url,
            logo: self.logo,
            repo_url: self.repo_url,
            project_url: self.project_url,
            twitter: self.twitter,
            description: self.description,
        }
    }
}

} // verus!
