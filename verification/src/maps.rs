use vstd::prelude::*;

verus! {

/// A map known to the manager.
#[derive(Debug)]
pub struct TabTmMap {
    pub name: String,
    pub uid: String,
    pub id: u32,
    pub author_user_id: u32,
    pub author_time: u32,
    pub gold_time: u32,
    pub silver_time: u32,
    pub bronze_time: u32,
    pub internal: bool,
}

impl TabTmMap {
    /// A new map that is not internal; the store gives it its id.
    pub fn new(
        name: String,
        uid: String,
        author_user_id: u32,
        author_time: u32,
        gold_time: u32,
        silver_time: u32,
        bronze_time: u32,
    ) -> (r: Self)
        ensures
            r == (TabTmMap { name, uid, id: 0, author_user_id, author_time, gold_time, silver_time, bronze_time, internal: false }),
    {
        Self { name, uid, id: 0, author_user_id, author_time, gold_time, silver_time, bronze_time, internal: false }
    }
}

} // verus!
