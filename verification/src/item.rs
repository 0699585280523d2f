//! Documents as they are stored and read back.
use vstd::prelude::*;
use crate::error::{ErrorView, MinistoreError};
use crate::json::{jv, jv_members, lemma_jv_members, obj_insert, JView, JsonValue};
use crate::schema::{lookup, sorted_names};

verus! {

/// A document to store: its path, and the JSON object it was given as.
#[derive(Debug)]
pub struct ItemDoc {
    pub path: String,
    pub fields: JsonValue,
}

/// When an item was first stored and last changed, in epoch milliseconds.
#[derive(Debug, Clone, Copy)]
pub struct ItemMeta {
    pub created_at_ms: i64,
    pub updated_at_ms: i64,
}

/// A stored item as read back: path, full document (with `path`) and times.
#[derive(Debug)]
pub struct ItemView {
    pub path: String,
    pub doc: JsonValue,
    pub meta: ItemMeta,
}

/// The path a document is stored under, or why it has none: it must be an
/// object (else `not_object`) with a `path` string (else `no_path`) that is
/// not empty.
pub open spec fn doc_path(v: JView, not_object: Seq<char>, no_path: Seq<char>) -> Result<Seq<char>, ErrorView> {
    match v {
        JView::Object(o) => match lookup(o, "path"@) {
            Some(JView::Str(p)) => if p.len() == 0 {
                Err(ErrorView::Schema("path cannot be empty"@))
            } else {
                Ok(p)
            },
            _ => Err(ErrorView::Schema(no_path)),
        },
        _ => Err(ErrorView::Schema(not_object)),
    }
}

/// The members of an object value; none for any other value.
pub open spec fn members_or_empty(v: JView) -> Seq<(Seq<char>, JView)> {
    match v {
        JView::Object(o) => o,
        _ => seq![],
    }
}

impl ItemDoc {
    /// Parse an item from a JSON value, which must be an object with a
    /// non-empty `path` string.
    pub fn from_json(v: JsonValue) -> (r: Result<ItemDoc, MinistoreError>)
        ensures
            match (r, doc_path(v@, "item must be a JSON object"@, "item must have a 'path' string field"@)) {
                (Ok(d), Ok(p)) => d.path@ == p && d.fields@ == v@,
                (Err(e), Err(x)) => e@ == x,
                _ => false,
            },
    {
        let path = match v.get("path") {
            Some(p) => match p.as_str() {
                Some(s) => s.clone(),
                None => {
                    if v.as_object().is_none() {
                        return Err(MinistoreError::Schema(String::from_str("item must be a JSON object")));
                    }
                    return Err(MinistoreError::Schema(String::from_str("item must have a 'path' string field")));
                },
            },
            None => {
                if v.as_object().is_none() {
                    return Err(MinistoreError::Schema(String::from_str("item must be a JSON object")));
                }
                return Err(MinistoreError::Schema(String::from_str("item must have a 'path' string field")));
            },
        };
        if path.as_str().unicode_len() == 0 {
            return Err(MinistoreError::Schema(String::from_str("path cannot be empty")));
        }
        Ok(ItemDoc { path, fields: v })
    }

    /// The document to store: its members with `path` set to the item's path.
    pub fn to_storage_json(&self) -> (r: JsonValue)
        requires
            sorted_names(members_or_empty(self.fields@)),
        ensures
            match r@ {
                JView::Object(o) => sorted_names(o) && forall|n: Seq<char>| #[trigger] lookup(o, n) == (if n == "path"@ {
                    Some(JView::Str(self.path@))
                } else {
                    lookup(members_or_empty(self.fields@), n)
                }),
                _ => false,
            },
    {
        let mut obj = match self.fields.copy() {
            JsonValue::Object(o) => o,
            _ => Vec::new(),
        };
        proof {
            lemma_jv_members(obj@);
            assert(jv_members(obj@) == members_or_empty(self.fields@));
        }
        obj_insert(&mut obj, String::from_str("path"), JsonValue::String(self.path.clone()));
        JsonValue::Object(obj)
    }
}

} // verus!
