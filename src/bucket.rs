use vstd::prelude::*;

verus! {

/// Descriptive state of one bucket: its name, which is its identity, and the
/// attributes that the storage engine keeps for it.
#[derive(Clone, Debug, PartialEq, Eq)]
pub struct BucketMetadata {
    pub name: String,
    /// Creation time, in microseconds since the Unix epoch.
    pub created_at: u64,
    /// Time of the last change, in microseconds since the Unix epoch.
    pub updated_at: u64,
    /// Largest size the bucket may reach, in bytes; 0 means no quota.
    pub quota_size: u64,
    /// How long records are kept, in seconds; 0 means forever.
    pub retention: u64,
}

impl BucketMetadata {
    pub fn new(name: &str, created_at: u64) -> (r: BucketMetadata)
        ensures
            r.name@ == name@,
            r.created_at == created_at,
            r.updated_at == created_at,
            r.quota_size == 0,
            r.retention == 0,
    {
        BucketMetadata {
            name: name.to_owned(),
            created_at,
            updated_at: created_at,
            quota_size: 0,
            retention: 0,
        }
    }

    /// An independent copy, equal to `self` in every field.
    pub fn duplicate(&self) -> (r: BucketMetadata)
        ensures
            r == *self,
    {
        BucketMetadata {
            name: self.name.clone(),
            created_at: self.created_at,
            updated_at: self.updated_at,
            quota_size: self.quota_size,
            retention: self.retention,
        }
    }
}

} // verus!
