//! The record type: token identifier, owner identifier, creation date and
//! category, with the field validation rules.

use vstd::prelude::*;

use crate::category::{Category, CategoryModel};
use crate::clock::today;
use crate::date::{spec_date_le, spec_valid_date, Date};
use crate::errors::ValidationError;
use crate::text::{is_blank, spec_is_blank};

verus! {

/// One record. Fields are plain values; [`NFT::validate`] judges them.
#[derive(Debug)]
pub struct NFT {
    /// The logical primary key of a record.
    pub token_id: String,
    /// The record's owner; zero is not a valid owner.
    pub owner_id: u64,
    /// When the record was created; never in the future for a valid record.
    pub creation_date: Date,
    /// The record's category.
    pub category: Category,
}

/// The mathematical model of a record: the token identifier as its character
/// sequence, the other fields as they are.
pub struct NftModel {
    pub token_id: Seq<char>,
    pub owner_id: u64,
    pub creation_date: Date,
    pub category: CategoryModel,
}

impl View for NFT {
    type V = NftModel;

    open spec fn view(&self) -> NftModel {
        NftModel {
            token_id: self.token_id@,
            owner_id: self.owner_id,
            creation_date: self.creation_date,
            category: self.category@,
        }
    }
}

impl DeepView for NFT {
    type V = NftModel;

    open spec fn deep_view(&self) -> NftModel {
        self.view()
    }
}

impl Clone for NFT {
    fn clone(&self) -> (r: Self)
        ensures
            r == *self,
    {
        NFT {
            token_id: self.token_id.clone(),
            owner_id: self.owner_id,
            creation_date: self.creation_date,
            category: self.category.clone(),
        }
    }
}

impl PartialEq for NFT {
    fn eq(&self, other: &Self) -> (r: bool) {
        self.token_id.eq(&other.token_id) && self.owner_id == other.owner_id
            && self.creation_date == other.creation_date && self.category.eq(&other.category)
    }
}

impl vstd::std_specs::cmp::PartialEqSpecImpl for NFT {
    open spec fn obeys_eq_spec() -> bool {
        true
    }

    open spec fn eq_spec(&self, other: &Self) -> bool {
        self@ == other@
    }
}

/// Whether a category carries text: the closed tags always do, free text
/// only when it is not blank.
pub open spec fn spec_category_nonblank(c: CategoryModel) -> bool {
    match c {
        CategoryModel::Other(t) => !spec_is_blank(t),
        _ => true,
    }
}

/// The validation verdict for a record judged against the date `today`: the
/// first violated rule, in the order token identifier, owner identifier,
/// creation date, category; `Ok` when none is violated.
pub open spec fn spec_validate(n: NftModel, today: Date) -> Result<(), ValidationError> {
    if spec_is_blank(n.token_id) {
        Err(ValidationError::EmptyTokenId)
    } else if n.owner_id == 0 {
        Err(ValidationError::NonPositiveOwnerId)
    } else if !spec_valid_date(n.creation_date) {
        Err(ValidationError::MalformedCreationDate)
    } else if !spec_date_le(n.creation_date, today) {
        Err(ValidationError::FutureCreationDate)
    } else if !spec_category_nonblank(n.category) {
        Err(ValidationError::EmptyCategory)
    } else {
        Ok(())
    }
}

/// Law: a record built from valid field inputs passes validation, and one
/// with a blank token identifier, a zero owner identifier, a malformed or
/// future creation date, or a blank free-text category fails it.
pub proof fn lemma_validation_verdict(
    token_id: Seq<char>,
    owner_id: u64,
    creation_date: Date,
    category: CategoryModel,
    today: Date,
)
    ensures
        ({
            let m = NftModel { token_id, owner_id, creation_date, category };
            spec_validate(m, today) is Ok <==> (!spec_is_blank(token_id) && owner_id > 0
                && spec_valid_date(creation_date) && spec_date_le(creation_date, today)
                && spec_category_nonblank(category))
        }),
{
}

impl NFT {
    /// A record from its four fields, exactly as given; no judgement yet.
    pub fn new(token_id: String, owner_id: u64, creation_date: Date, category: Category) -> (r:
        NFT)
        ensures
            r@ == (NftModel { token_id: token_id@, owner_id, creation_date, category: category@ }),
    {
        NFT { token_id, owner_id, creation_date, category }
    }

    /// Judges this record against the given date standing for today.
    pub fn validate_at(&self, today: &Date) -> (r: Result<(), ValidationError>)
        ensures
            r == spec_validate(self@, *today),
    {
        if is_blank(self.token_id.as_str()) {
            Err(ValidationError::EmptyTokenId)
        } else if self.owner_id == 0 {
            Err(ValidationError::NonPositiveOwnerId)
        } else if !self.creation_date.is_valid() {
            Err(ValidationError::MalformedCreationDate)
        } else if !self.creation_date.le(today) {
            Err(ValidationError::FutureCreationDate)
        } else {
            match &self.category {
                Category::Other(t) => {
                    if is_blank(t.as_str()) {
                        Err(ValidationError::EmptyCategory)
                    } else {
                        Ok(())
                    }
                },
                _ => Ok(()),
            }
        }
    }

    /// Judges this record against the system clock's current date.
    pub fn validate(&self) -> (r: Result<(), ValidationError>)
        ensures
            exists|t: Date| spec_valid_date(t) && r == spec_validate(self@, t),
    {
        let t = today();
        self.validate_at(&t)
    }
}

} // verus!
