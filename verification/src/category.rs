//! The category of a record: a closed set of named tags plus a free-text
//! fallback, parsed from user text without regard to ASCII case.

use vstd::prelude::*;
use vstd::string::StringExecFns;

use crate::errors::ValidationError;
use crate::text::{eq_folded, is_blank, spec_eq_folded, spec_is_blank};

verus! {

/// A record's category.
#[derive(Debug)]
pub enum Category {
    Art,
    Music,
    VirtualRealEstate,
    Collectible,
    GameItem,
    /// Free text naming any other category; never blank when it came
    /// through [`Category::parse`].
    Other(String),
}

/// The mathematical model of a category: the free text as its character
/// sequence.
pub enum CategoryModel {
    Art,
    Music,
    VirtualRealEstate,
    Collectible,
    GameItem,
    Other(Seq<char>),
}

impl View for Category {
    type V = CategoryModel;

    open spec fn view(&self) -> CategoryModel {
        match self {
            Category::Art => CategoryModel::Art,
            Category::Music => CategoryModel::Music,
            Category::VirtualRealEstate => CategoryModel::VirtualRealEstate,
            Category::Collectible => CategoryModel::Collectible,
            Category::GameItem => CategoryModel::GameItem,
            Category::Other(t) => CategoryModel::Other(t@),
        }
    }
}

impl DeepView for Category {
    type V = CategoryModel;

    open spec fn deep_view(&self) -> CategoryModel {
        self.view()
    }
}

impl Clone for Category {
    fn clone(&self) -> (r: Self)
        ensures
            r == *self,
    {
        match self {
            Category::Art => Category::Art,
            Category::Music => Category::Music,
            Category::VirtualRealEstate => Category::VirtualRealEstate,
            Category::Collectible => Category::Collectible,
            Category::GameItem => Category::GameItem,
            Category::Other(t) => Category::Other(t.clone()),
        }
    }
}

impl PartialEq for Category {
    fn eq(&self, other: &Self) -> (r: bool) {
        match (self, other) {
            (Category::Art, Category::Art) => true,
            (Category::Music, Category::Music) => true,
            (Category::VirtualRealEstate, Category::VirtualRealEstate) => true,
            (Category::Collectible, Category::Collectible) => true,
            (Category::GameItem, Category::GameItem) => true,
            (Category::Other(a), Category::Other(b)) => a.eq(b),
            _ => false,
        }
    }
}

impl vstd::std_specs::cmp::PartialEqSpecImpl for Category {
    open spec fn obeys_eq_spec() -> bool {
        true
    }

    open spec fn eq_spec(&self, other: &Self) -> bool {
        self@ == other@
    }
}

/// Whether `s`, ASCII-case-folded, names one of the five closed tags.
pub open spec fn spec_is_tag_name(s: Seq<char>) -> bool {
    ||| spec_eq_folded(s, "art"@)
    ||| spec_eq_folded(s, "music"@)
    ||| spec_eq_folded(s, "virtual real estate"@)
    ||| spec_eq_folded(s, "collectible"@)
    ||| spec_eq_folded(s, "game item"@)
}

/// The display text of a category.
pub open spec fn spec_category_text(c: CategoryModel) -> Seq<char> {
    match c {
        CategoryModel::Art => "Art"@,
        CategoryModel::Music => "Music"@,
        CategoryModel::VirtualRealEstate => "Virtual Real Estate"@,
        CategoryModel::Collectible => "Collectible"@,
        CategoryModel::GameItem => "Game Item"@,
        CategoryModel::Other(t) => "Other: "@ + t,
    }
}

impl Category {
    /// Parses user text into a category: one of the five named tags, matched
    /// without regard to ASCII case, else the text itself as `Other`; blank
    /// text is rejected.
    pub fn parse(s: &str) -> (r: Result<Category, ValidationError>)
        ensures
            spec_eq_folded(s@, "art"@) ==> r == Ok::<_, ValidationError>(Category::Art),
            spec_eq_folded(s@, "music"@) ==> r == Ok::<_, ValidationError>(Category::Music),
            spec_eq_folded(s@, "virtual real estate"@) ==> r == Ok::<_, ValidationError>(
                Category::VirtualRealEstate,
            ),
            spec_eq_folded(s@, "collectible"@) ==> r == Ok::<_, ValidationError>(
                Category::Collectible,
            ),
            spec_eq_folded(s@, "game item"@) ==> r == Ok::<_, ValidationError>(Category::GameItem),
            !spec_is_tag_name(s@) && !spec_is_blank(s@) ==> (r matches Ok(c) && c@
                == CategoryModel::Other(s@)),
            !spec_is_tag_name(s@) && spec_is_blank(s@) ==> r == Err::<Category, _>(
                ValidationError::EmptyCategory,
            ),
    {
        proof {
            // The five tag names have pairwise different lengths, so at most
            // one of the keyword clauses can apply to a given input.
            reveal_strlit("art");
            reveal_strlit("music");
            reveal_strlit("virtual real estate");
            reveal_strlit("collectible");
            reveal_strlit("game item");
        }
        if eq_folded(s, "art") {
            Ok(Category::Art)
        } else if eq_folded(s, "music") {
            Ok(Category::Music)
        } else if eq_folded(s, "virtual real estate") {
            Ok(Category::VirtualRealEstate)
        } else if eq_folded(s, "collectible") {
            Ok(Category::Collectible)
        } else if eq_folded(s, "game item") {
            Ok(Category::GameItem)
        } else if !is_blank(s) {
            Ok(Category::Other(s.to_owned()))
        } else {
            Err(ValidationError::EmptyCategory)
        }
    }

    /// The display text of this category.
    pub fn to_text(&self) -> (r: String)
        ensures
            r@ == spec_category_text(self@),
    {
        match self {
            Category::Art => "Art".to_owned(),
            Category::Music => "Music".to_owned(),
            Category::VirtualRealEstate => "Virtual Real Estate".to_owned(),
            Category::Collectible => "Collectible".to_owned(),
            Category::GameItem => "Game Item".to_owned(),
            Category::Other(t) => {
                let mut out = "Other: ".to_owned();
                out.append(t.as_str());
                out
            },
        }
    }
}

} // verus!
