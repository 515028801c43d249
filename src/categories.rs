use vstd::prelude::*;

use sqlx::types::Uuid;

use crate::errors::AppError;
use crate::ids::{is_uuid_text, read_uuid};
use crate::text::text_eq;

verus! {

/// What the entries of a category are.
#[derive(Debug, Clone, Copy, PartialEq, Eq, Structural)]
pub enum CategoryType {
    Music,
    Audiobook,
}

/// The category type that a name stands for.
pub open spec fn category_type_named(s: Seq<char>) -> Option<CategoryType> {
    if s == "music"@ {
        Some(CategoryType::Music)
    } else if s == "audiobook"@ {
        Some(CategoryType::Audiobook)
    } else {
        None
    }
}

pub open spec fn category_type_name(t: CategoryType) -> Seq<char> {
    match t {
        CategoryType::Music => "music"@,
        CategoryType::Audiobook => "audiobook"@,
    }
}

impl CategoryType {
    /// The type's name, as paths and forms carry it and the database stores it.
    pub fn as_str(&self) -> (r: &'static str)
        ensures
            r@ == category_type_name(*self),
    {
        match self {
            CategoryType::Music => "music",
            CategoryType::Audiobook => "audiobook",
        }
    }

    /// The category type named `s`; any other name is an error.
    pub fn from_str(s: &str) -> (r: Result<CategoryType, AppError>)
        ensures
            r == match category_type_named(s@) {
                Some(t) => Ok(t),
                None => Err(AppError::StrumError),
            },
    {
        if text_eq(s, "music") {
            Ok(CategoryType::Music)
        } else if text_eq(s, "audiobook") {
            Ok(CategoryType::Audiobook)
        } else {
            Err(AppError::StrumError)
        }
    }
}

/// Reading back the name of a category type gives the type.
pub proof fn lemma_category_type_name_round_trip(t: CategoryType)
    ensures
        category_type_named(category_type_name(t)) == Some(t),
{
    reveal_strlit("music");
    reveal_strlit("audiobook");
    assert("music"@.len() != "audiobook"@.len());
}

/// A category as it is stored.
#[derive(Debug)]
pub struct Category {
    pub id: Uuid,
    pub name: String,
    pub image_url: String,
    pub category_type: CategoryType,
    pub visible: bool,
}

/// The fields of the form that creates a category.
#[derive(Debug, Clone)]
pub struct CategoryCreateForm {
    pub name: String,
    pub image_url: String,
    pub category_type: String,
}

/// The fields of the form that edits a category; a box that is not ticked
/// leaves the category hidden.
#[derive(Debug, Clone)]
pub struct CategoryEditForm {
    pub id: String,
    pub name: String,
    pub image_url: String,
    pub category_type: String,
    pub visible: bool,
}

impl CategoryEditForm {
    /// The category that the form describes: an id that is no UUID is an
    /// error, and then a type that is none of the known ones.
    pub fn try_into(self) -> (r: Result<Category, AppError>)
        ensures
            !is_uuid_text(self.id@) ==> r == Err::<Category, AppError>(AppError::UuidError),
            is_uuid_text(self.id@) && category_type_named(self.category_type@) is None ==> r
                == Err::<Category, AppError>(AppError::StrumError),
            is_uuid_text(self.id@) && category_type_named(self.category_type@) is Some ==> (r matches Ok(
                c,
            ) && c.name == self.name && c.image_url == self.image_url && Some(c.category_type)
                == category_type_named(self.category_type@) && c.visible == self.visible),
    {
        let id = match read_uuid(self.id.as_str()) {
            Ok(id) => id,
            Err(e) => return Err(e),
        };
        let category_type = match CategoryType::from_str(self.category_type.as_str()) {
            Ok(t) => t,
            Err(e) => return Err(e),
        };
        Ok(Category {
            id,
            name: self.name,
            image_url: self.image_url,
            category_type,
            visible: self.visible,
        })
    }
}

} // verus!
