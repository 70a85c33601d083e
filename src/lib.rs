use vstd::prelude::*;

pub mod checkpoint;
pub mod issue;
pub mod iterator;
pub mod sync;

verus! {

/// Largest value of a signed 64-bit column, as an unsigned number.
pub const I64_MAX_AS_U64: u64 = 9223372036854775807;

/// The signed column value that stands for the unsigned `i`.
pub open spec fn folded(i: u64) -> i64 {
    if i <= I64_MAX_AS_U64 {
        i as i64
    } else {
        -((i % I64_MAX_AS_U64) as int) as i64
    }
}

/// Folds an unsigned identity into the signed range of a storage column.
///
/// Values that fit are kept; larger ones are mapped to the negated remainder
/// of a division by `i64::MAX`. Distinct values can meet at the top of the
/// range: the fold is not injective there.
pub fn u64_from_i64(i: u64) -> (r: i64)
    ensures
        r == folded(i),
        i <= I64_MAX_AS_U64 ==> r as int == i as int,
        i > I64_MAX_AS_U64 ==> r as int == -((i as int) % (I64_MAX_AS_U64 as int)),
{
    if i <= I64_MAX_AS_U64 {
        return i as i64;
    }
    let remainder: u64 = i % I64_MAX_AS_U64;
    -(remainder as i64)
}

/// Settings of a synchronization run: the repository to mirror, the token
/// for the tracker, and where the search index lives.
pub struct Opts {
    pub owner: String,
    pub repo: String,
    pub github_pat: String,
    pub meili_url: String,
    pub meili_master_key: Option<String>,
}

} // verus!
