//! The synthetic record that one benchmark iteration writes and reads back.

use vstd::prelude::*;
use std::collections::HashMap;
use crate::rng::RandomSource;
use crate::rng::is_alnum_char;

verus! {

/// A 128-bit random identifier, held as plain halves.  The database edge
/// turns it into its native identifier type when binding statement
/// parameters.
#[derive(Clone, Copy, Debug, PartialEq, Eq, Structural)]
pub struct UuidValue {
    pub hi: u64,
    pub lo: u64,
}

impl UuidValue {
    /// A fresh random identifier.  Identifiers drawn this way collide only
    /// with negligible probability, which is what makes the record's natural
    /// key unique within a run.
    pub fn generate(rng: &mut RandomSource) -> UuidValue {
        let hi = rng.next_u64();
        let lo = rng.next_u64();
        UuidValue { hi, lo }
    }
}

/// The storage-shard assignments every record carries: two fixed entries.
pub fn sharks() -> HashMap<String, Option<String>> {
    let mut headers = HashMap::new();
    headers.insert("us-east-1".to_owned(), Some("1.stor.us-east.joyent.com".to_owned()));
    headers.insert("us-east-2".to_owned(), Some("3.stor.us-east.joyent.com'".to_owned()));
    headers
}

/// The custom headers every record carries: two fixed entries.
pub fn headers() -> HashMap<String, Option<String>> {
    let mut headers = HashMap::new();
    headers.insert("m-custom-header-1".to_owned(), Some("header-value1".to_owned()));
    headers.insert("m-custom-header-2".to_owned(), Some("header-value2".to_owned()));
    headers
}

/// One synthetic object: the unit of work for a write-then-read iteration.
/// Its natural key is the (owner, bucket, name) triple.
pub struct MantaObject {
    pub id: UuidValue,
    pub name: String,
    pub owner: UuidValue,
    pub bucket_id: UuidValue,
    pub vnode: i64,
    pub content_length: i64,
    pub content_md5: String,
    pub content_type: String,
    pub headers: HashMap<String, Option<String>>,
    pub sharks: HashMap<String, Option<String>>,
}

/// The length of a record's random name.
pub const NAME_LENGTH: usize = 10;

impl MantaObject {
    /// Every field a record carries is pinned here except the four random
    /// draws: three identifiers and a ten-character alphanumeric name.
    pub fn new(rng: &mut RandomSource) -> (o: MantaObject)
        ensures
            o.name@.len() == NAME_LENGTH as int,
            forall|i: int| 0 <= i < o.name@.len() ==> is_alnum_char(o.name@[i]),
            o.vnode == 1000,
            o.content_length == 1024,
            o.content_md5@ == "deadbeef"@,
            o.content_type@ == "text/plain"@,
    {
        let name = rng.alphanumeric_string(NAME_LENGTH);
        MantaObject {
            name,
            id: UuidValue::generate(rng),
            bucket_id: UuidValue::generate(rng),
            vnode: 1000,
            owner: UuidValue::generate(rng),
            content_length: 1024,
            content_md5: "deadbeef".to_owned(),
            content_type: "text/plain".to_owned(),
            headers: headers(),
            sharks: sharks(),
        }
    }
}

} // verus!
