//! What an index decides on its own when it opens a file and takes a document.
use vstd::prelude::*;
use crate::error::{ErrorView, MinistoreError};
use crate::json::{jv_members, lemma_jv_members, obj_insert, JView, JsonValue};
use crate::schema::{lookup, sorted_names};
use crate::text::{concat, str_eq};

verus! {

/// The magic value an index file records, and what opening makes of it.
pub open spec fn magic_check(magic: Option<Seq<char>>) -> Result<(), ErrorView> {
    match magic {
        None => Err(ErrorView::Schema("not a ministore database (missing magic)"@)),
        Some(m) => if m == "ministore"@ {
            Ok(())
        } else {
            Err(ErrorView::Schema("not a ministore database (invalid magic: "@ + m + ")"@))
        },
    }
}

/// Check the magic value read from an index file's metadata.
pub fn check_magic(magic: Option<&str>) -> (r: Result<(), MinistoreError>)
    ensures
        match (r, magic_check(match magic { Some(m) => Some(m@), None => None })) {
            (Ok(()), Ok(())) => true,
            (Err(e), Err(x)) => e@ == x,
            _ => false,
        },
{
    match magic {
        None => Err(MinistoreError::Schema(String::from_str("not a ministore database (missing magic)"))),
        Some(m) => if str_eq(m, crate::sql::META_MAGIC_VAL) {
            Ok(())
        } else {
            let mut msg = concat("not a ministore database (invalid magic: ", m);
            msg.append(")");
            Err(MinistoreError::Schema(msg))
        },
    }
}

/// The schema JSON read from an index file's metadata, which must be there.
pub fn require_schema_json(schema_json: Option<String>) -> (r: Result<String, MinistoreError>)
    ensures
        match schema_json {
            Some(s) => r is Ok && r->Ok_0@ == s@,
            None => r is Err && r->Err_0@ == ErrorView::Schema("missing schema metadata"@),
        },
{
    match schema_json {
        Some(s) => Ok(s),
        None => Err(MinistoreError::Schema(String::from_str("missing schema metadata"))),
    }
}

/// The error for a path that holds no item.
pub fn item_not_found(path: &str) -> (e: MinistoreError)
    ensures
        e@ == ErrorView::NotFound(path@),
{
    MinistoreError::NotFound(path.to_owned())
}

/// A document from a path and an object of fields: the fields with `path` set.
pub fn fields_with_path(path: &str, fields: JsonValue) -> (r: Result<JsonValue, MinistoreError>)
    requires
        fields@ is Object ==> sorted_names(fields@->Object_0),
    ensures
        match fields@ {
            JView::Object(o) => r is Ok && r->Ok_0@ is Object && sorted_names(r->Ok_0@->Object_0)
                && forall|n: Seq<char>| #[trigger] lookup(r->Ok_0@->Object_0, n) == (if n == "path"@ {
                    Some(JView::Str(path@))
                } else {
                    lookup(o, n)
                }),
            _ => r is Err && r->Err_0@ == ErrorView::Schema("fields must be a JSON object"@),
        },
{
    match fields {
        JsonValue::Object(mut obj) => {
            proof {
                lemma_jv_members(obj@);
            }
            obj_insert(&mut obj, String::from_str("path"), JsonValue::String(path.to_owned()));
            Ok(JsonValue::Object(obj))
        },
        _ => Err(MinistoreError::Schema(String::from_str("fields must be a JSON object"))),
    }
}

/// How many documents a rebuild writes per batch.
pub const REBUILD_BATCH_SIZE: usize = 1000;

} // verus!
