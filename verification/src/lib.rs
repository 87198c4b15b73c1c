// Storage core of a small relational engine: record identifiers, the
// slotted table page, frame replacement policies and the heap scan cursor.
pub mod typedef;
pub mod record_id;
pub mod error;
pub mod tuple;
pub mod layout;
pub mod page_layout;
pub mod table_page;
pub mod lru_k_replacer;
pub mod lru_replacer;
pub mod table_tuple_iterator;
