use vstd::prelude::*;

verus! {

/// The members of one demographic value: how many individuals have it, and
/// the sum of their degrees.
#[derive(Debug, PartialEq, Eq)]
pub struct Bucket {
    pub key: String,
    pub total_degree: u128,
    pub members: usize,
}

/// A `Bucket` with its key as the characters it holds and its numbers
/// unbounded.
pub struct BucketView {
    pub key: Seq<char>,
    pub total_degree: nat,
    pub members: nat,
}

impl View for Bucket {
    type V = BucketView;

    open spec fn view(&self) -> BucketView {
        BucketView {
            key: self.key@,
            total_degree: self.total_degree as nat,
            members: self.members as nat,
        }
    }
}

/// An average, as the sum and the count that it is the quotient of.
#[derive(Clone, Copy, Debug, PartialEq, Eq)]
pub struct Average {
    pub sum: u128,
    pub count: usize,
}

/// What the sum over `members` individuals is divided by: their number, or 1
/// where there are none, so that no average divides by zero.
pub open spec fn divisor(members: nat) -> nat {
    if members == 0 {
        1
    } else {
        members
    }
}

impl Bucket {
    /// The average degree of the bucket's members.
    pub fn average(&self) -> (average: Average)
        ensures
            average.sum == self.total_degree,
            average.count == divisor(self.members as nat),
    {
        let count = if self.members == 0 {
            1
        } else {
            self.members
        };
        Average { sum: self.total_degree, count }
    }
}

/// The buckets of a list, each as its view.
pub open spec fn bucket_views(buckets: Seq<Bucket>) -> Seq<BucketView> {
    buckets.map_values(|b: Bucket| b@)
}

/// Whether one of `buckets` is for `key`.
pub open spec fn has_key(buckets: Seq<BucketView>, key: Seq<char>) -> bool {
    exists|j: int| 0 <= j < buckets.len() && #[trigger] buckets[j].key == key
}

/// Whether no two of `buckets` are for the same key.
pub open spec fn distinct_keys(buckets: Seq<BucketView>) -> bool {
    forall|i: int, j: int|
        0 <= i < j < buckets.len() ==> (#[trigger] buckets[i]).key != (#[trigger] buckets[j]).key
}

/// `bucket` with one more member, of degree `degree`.
pub open spec fn joined(bucket: BucketView, degree: nat) -> BucketView {
    BucketView {
        key: bucket.key,
        total_degree: bucket.total_degree + degree,
        members: bucket.members + 1,
    }
}

/// `buckets` after an individual with value `key` and degree `degree` is
/// counted: it joins the bucket for `key`, or founds one at the end.
pub open spec fn with_member(buckets: Seq<BucketView>, key: Seq<char>, degree: nat) -> Seq<
    BucketView,
> {
    if has_key(buckets, key) {
        Seq::new(
            buckets.len(),
            |j: int|
                if buckets[j].key == key {
                    joined(buckets[j], degree)
                } else {
                    buckets[j]
                },
        )
    } else {
        buckets.push(BucketView { key, total_degree: degree, members: 1 })
    }
}

/// Where in `buckets` the bucket for `key` stands, if there is one.
pub fn bucket_position(buckets: &Vec<Bucket>, key: &str) -> (at: Option<usize>)
    ensures
        match at {
            Some(j) => j < buckets.len() && buckets[j as int].key@ == key@ && forall|i: int|
                0 <= i < j ==> buckets[i].key@ != key@,
            None => !has_key(bucket_views(buckets@), key@),
        },
{
    let mut j: usize = 0;
    while j < buckets.len()
        invariant
            j <= buckets.len(),
            forall|i: int| 0 <= i < j ==> buckets[i].key@ != key@,
        decreases buckets.len() - j,
    {
        if buckets[j].key.as_str().eq(key) {
            return Some(j);
        }
        j += 1;
    }
    None
}

/// Counts an individual with value `key` and degree `degree`.
pub fn add_member(buckets: &mut Vec<Bucket>, key: String, degree: usize)
    requires
        distinct_keys(bucket_views(old(buckets)@)),
        forall|j: int|
            0 <= j < old(buckets).len() ==> old(buckets)[j].total_degree + degree <= u128::MAX
                && old(buckets)[j].members < usize::MAX,
    ensures
        bucket_views(final(buckets)@) == with_member(
            bucket_views(old(buckets)@),
            key@,
            degree as nat,
        ),
        distinct_keys(bucket_views(final(buckets)@)),
{
    let ghost before = bucket_views(buckets@);
    match bucket_position(buckets, key.as_str()) {
        Some(j) => {
            buckets[j].total_degree = buckets[j].total_degree + degree as u128;
            buckets[j].members = buckets[j].members + 1;
            proof {
                let after = bucket_views(buckets@);
                assert(before[j as int].key == key@);
                assert forall|i: int| 0 <= i < before.len() implies after[i] == if before[i].key
                    == key@ {
                    joined(before[i], degree as nat)
                } else {
                    before[i]
                } by {
                    if i != j {
                        assert(before[i].key != before[j as int].key);
                    }
                }
            }
        },
        None => {
            buckets.push(Bucket { key, total_degree: degree as u128, members: 1 });
            proof {
                let after = bucket_views(buckets@);
                assert forall|i: int, j: int| 0 <= i < j < after.len() implies after[i].key
                    != after[j].key by {
                    if j == before.len() {
                        assert(before[i].key != key@);
                    } else {
                        assert(before[i].key != before[j].key);
                    }
                }
            }
        },
    }
}

} // verus!
