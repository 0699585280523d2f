//! The statements of the index's own tables.
use vstd::prelude::*;

verus! {

pub const META_MAGIC_KEY: &'static str = "ministore_magic";
pub const META_MAGIC_VAL: &'static str = "ministore";
pub const META_VERSION_KEY: &'static str = "ministore_version";
pub const META_VERSION_VAL: &'static str = "1";
pub const META_SCHEMA_KEY: &'static str = "schema_json";

pub const SQL_GET_META: &'static str = "SELECT value FROM meta WHERE key = ?1";
pub const SQL_SET_META: &'static str = "INSERT INTO meta(key,value) VALUES(?1,?2) ON CONFLICT(key) DO UPDATE SET value=excluded.value";

pub const SQL_FIND_ITEM_ID_BY_PATH: &'static str = "SELECT id FROM items WHERE path = ?1";
pub const SQL_GET_ITEM_BY_PATH: &'static str = "SELECT id, data_json, created_at, updated_at FROM items WHERE path = ?1";
pub const SQL_SCAN_PATHS: &'static str = "SELECT path FROM items WHERE substr(path, 1, length(?1)) = ?1 ORDER BY path ASC";
pub const SQL_UPDATE_ITEM: &'static str = "UPDATE items SET data_json = ?1, updated_at = ?2 WHERE id = ?3";
pub const SQL_UPDATE_ITEM_WITH_TIMESTAMPS: &'static str = "UPDATE items SET data_json = ?1, created_at = ?2, updated_at = ?3 WHERE id = ?4";
pub const SQL_INSERT_ITEM: &'static str = "INSERT INTO items(path, data_json, created_at, updated_at) VALUES(?1, ?2, ?3, ?4)";

pub const SQL_DELETE_SEARCH_ROW: &'static str = "DELETE FROM search WHERE rowid = ?1";
pub const SQL_DELETE_PRESENT_BY_ITEM: &'static str = "DELETE FROM field_present WHERE item_id = ?1";
pub const SQL_DELETE_POSTINGS_BY_ITEM: &'static str = "DELETE FROM kw_postings WHERE item_id = ?1";
pub const SQL_DELETE_NUMBER_BY_ITEM: &'static str = "DELETE FROM field_number WHERE item_id = ?1";
pub const SQL_DELETE_DATE_BY_ITEM: &'static str = "DELETE FROM field_date WHERE item_id = ?1";
pub const SQL_DELETE_BOOL_BY_ITEM: &'static str = "DELETE FROM field_bool WHERE item_id = ?1";
pub const SQL_DELETE_ITEMS_BY_ID: &'static str = "DELETE FROM items WHERE id = ?1";

pub const SQL_CLEANUP_EXPIRED_CURSORS: &'static str = "DELETE FROM cursor_store WHERE expires_at < ?1";
pub const SQL_GET_CURSOR: &'static str = "SELECT payload, expires_at FROM cursor_store WHERE handle = ?1";
pub const SQL_PUT_CURSOR: &'static str = "INSERT INTO cursor_store(handle, payload, created_at, expires_at) VALUES(?1,?2,?3,?4)";

pub const SQL_GET_VALUE_IDS_BY_ITEM: &'static str = "SELECT value_id FROM kw_postings WHERE item_id = ?1";
pub const SQL_DECREMENT_DOC_FREQ: &'static str = "UPDATE kw_dict SET doc_freq = doc_freq - 1 WHERE id = ?1";
pub const SQL_INCREMENT_DOC_FREQ: &'static str = "UPDATE kw_dict SET doc_freq = doc_freq + 1 WHERE id = ?1";

pub const SQL_INSERT_OR_IGNORE_KW_DICT: &'static str = "INSERT OR IGNORE INTO kw_dict(field, value, doc_freq) VALUES(?1, ?2, 0)";
pub const SQL_GET_KW_DICT_ID: &'static str = "SELECT id FROM kw_dict WHERE field = ?1 AND value = ?2";
pub const SQL_INSERT_OR_IGNORE_KW_POSTING: &'static str = "INSERT OR IGNORE INTO kw_postings(field, value_id, item_id) VALUES(?1, ?2, ?3)";

pub const SQL_INSERT_FIELD_PRESENT: &'static str = "INSERT INTO field_present(item_id, field) VALUES(?1, ?2)";
pub const SQL_INSERT_FIELD_NUMBER: &'static str = "INSERT INTO field_number(item_id, field, value) VALUES(?1, ?2, ?3)";
pub const SQL_INSERT_FIELD_DATE: &'static str = "INSERT INTO field_date(item_id, field, value) VALUES(?1, ?2, ?3)";
pub const SQL_INSERT_FIELD_BOOL: &'static str = "INSERT INTO field_bool(item_id, field, value) VALUES(?1, ?2, ?3)";

pub const SQL_REQUIRE_FTS5: &'static str = "SELECT COUNT(*) > 0 FROM pragma_compile_options WHERE compile_options = 'ENABLE_FTS5'";
pub const SQL_FTS_TABLE_INFO: &'static str = "PRAGMA table_info(search)";
pub const SQL_FIELD_DOC_COUNT: &'static str = "SELECT COUNT(DISTINCT item_id) FROM field_present WHERE field = ?1";
pub const SQL_ALL_DATA_JSON: &'static str = "SELECT data_json FROM items";
pub const SQL_FTS_OPTIMIZE: &'static str = "INSERT INTO search(search) VALUES('optimize')";
pub const SQL_VACUUM: &'static str = "VACUUM";
pub const SQL_PRAGMAS: &'static str = "\n            PRAGMA journal_mode=WAL;\n            PRAGMA synchronous=NORMAL;\n            PRAGMA foreign_keys=ON;\n        ";

/// The base tables and their indexes.
pub const DDL_BASE: &'static str = "
CREATE TABLE IF NOT EXISTS meta (
  key TEXT PRIMARY KEY,
  value TEXT
);

CREATE TABLE IF NOT EXISTS items (
  id INTEGER PRIMARY KEY,
  path TEXT UNIQUE NOT NULL,
  data_json TEXT NOT NULL,
  created_at INTEGER NOT NULL,
  updated_at INTEGER NOT NULL
);
CREATE INDEX IF NOT EXISTS idx_items_path ON items(path);
CREATE INDEX IF NOT EXISTS idx_items_updated ON items(updated_at);
CREATE INDEX IF NOT EXISTS idx_items_created ON items(created_at);

CREATE TABLE IF NOT EXISTS field_present (
  item_id INTEGER NOT NULL REFERENCES items(id),
  field TEXT NOT NULL,
  PRIMARY KEY (item_id, field)
);
CREATE INDEX IF NOT EXISTS idx_present_field ON field_present(field, item_id);

CREATE TABLE IF NOT EXISTS kw_dict (
  id INTEGER PRIMARY KEY,
  field TEXT NOT NULL,
  value TEXT NOT NULL,
  doc_freq INTEGER DEFAULT 0,
  UNIQUE (field, value)
);
CREATE INDEX IF NOT EXISTS idx_kw_dict_lookup ON kw_dict(field, value);

CREATE TABLE IF NOT EXISTS kw_postings (
  field TEXT NOT NULL,
  value_id INTEGER NOT NULL REFERENCES kw_dict(id),
  item_id INTEGER NOT NULL REFERENCES items(id),
  PRIMARY KEY (value_id, item_id)
);
CREATE INDEX IF NOT EXISTS idx_kw_postings_item ON kw_postings(item_id);
CREATE INDEX IF NOT EXISTS idx_kw_postings_field ON kw_postings(field, value_id);

CREATE TABLE IF NOT EXISTS field_number (
  item_id INTEGER NOT NULL REFERENCES items(id),
  field TEXT NOT NULL,
  value REAL NOT NULL,
  PRIMARY KEY (item_id, field, value)
);
CREATE INDEX IF NOT EXISTS idx_num_lookup ON field_number(field, value);

CREATE TABLE IF NOT EXISTS field_date (
  item_id INTEGER NOT NULL REFERENCES items(id),
  field TEXT NOT NULL,
  value INTEGER NOT NULL,
  PRIMARY KEY (item_id, field, value)
);
CREATE INDEX IF NOT EXISTS idx_date_lookup ON field_date(field, value);

CREATE TABLE IF NOT EXISTS field_bool (
  item_id INTEGER NOT NULL REFERENCES items(id),
  field TEXT NOT NULL,
  value INTEGER NOT NULL,
  PRIMARY KEY (item_id, field)
);
CREATE INDEX IF NOT EXISTS idx_bool_lookup ON field_bool(field, value);

CREATE TABLE IF NOT EXISTS cursor_store (
  handle TEXT PRIMARY KEY,
  payload TEXT NOT NULL,
  created_at INTEGER NOT NULL,
  expires_at INTEGER NOT NULL
);
CREATE INDEX IF NOT EXISTS idx_cursor_expires ON cursor_store(expires_at);
";

} // verus!
