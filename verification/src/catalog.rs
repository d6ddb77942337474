//! The catalog: an ordered snapshot of artifact descriptors.
//!
//! A descriptor keeps the two facts the rewriter reads of an artifact: its
//! name and the string form of its kind. A catalog is an ordered sequence of
//! descriptors, in the order the artifacts were enumerated; it is built once
//! per rewrite pass and read-only afterwards.

use vstd::prelude::*;

verus! {

/// The `{name, kind}` summary of one artifact.
#[derive(Debug, PartialEq)]
pub struct MinimalResourceInfo {
    /// The artifact's name.
    pub name: String,
    /// The string form of the artifact's kind (for example `"js"` or `"css"`).
    pub resource_type: String,
}

/// The mathematical image of a descriptor.
#[verifier::ext_equal]
pub ghost struct DescView {
    pub name: Seq<char>,
    pub kind: Seq<char>,
}

impl View for MinimalResourceInfo {
    type V = DescView;

    open spec fn view(&self) -> DescView {
        DescView { name: self.name@, kind: self.resource_type@ }
    }
}

/// The catalog a sequence of descriptors stands for.
pub open spec fn cat_view(rs: Seq<MinimalResourceInfo>) -> Seq<DescView> {
    rs.map_values(|r: MinimalResourceInfo| r@)
}

/// The descriptors of kind `k`, in their relative catalog order.
pub open spec fn of_kind(cat: Seq<DescView>, k: Seq<char>) -> Seq<DescView> {
    cat.filter(|d: DescView| d.kind == k)
}

/// The kind names present in `cat`, in order of first occurrence, each once.
pub open spec fn kinds_view(cat: Seq<DescView>) -> Seq<Seq<char>>
    decreases cat.len(),
{
    if cat.len() == 0 {
        Seq::<Seq<char>>::empty()
    } else {
        let rest = kinds_view(cat.drop_last());
        if rest.contains(cat.last().kind) {
            rest
        } else {
            rest.push(cat.last().kind)
        }
    }
}

/// A copy of a descriptor, equal in view.
pub fn copy_info(r: &MinimalResourceInfo) -> (c: MinimalResourceInfo)
    ensures
        c@ == r@,
{
    MinimalResourceInfo { name: r.name.clone(), resource_type: r.resource_type.clone() }
}

/// The descriptors of kind `kind`, in their relative order.
pub fn filter_kind(resources: &Vec<MinimalResourceInfo>, kind: &String) -> (r: Vec<
    MinimalResourceInfo,
>)
    ensures
        cat_view(r@) == of_kind(cat_view(resources@), kind@),
{
    broadcast use vstd::seq_lib::group_filter_ensures;

    let mut out: Vec<MinimalResourceInfo> = Vec::new();
    let mut i: usize = 0;
    while i < resources.len()
        invariant
            i <= resources.len(),
            cat_view(out@) == cat_view(resources@).subrange(0, i as int).filter(
                |d: DescView| d.kind == kind@,
            ),
        decreases resources.len() - i,
    {
        let ghost pre = cat_view(resources@).subrange(0, i as int);
        if resources[i].resource_type == *kind {
            out.push(copy_info(&resources[i]));
        }
        proof {
            let post = cat_view(resources@).subrange(0, i + 1 as int);
            assert(post.drop_last() =~= pre);
            assert(post.last() == resources@[i as int]@);
            reveal_with_fuel(Seq::filter, 2);
            assert(cat_view(out@) =~= post.filter(|d: DescView| d.kind == kind@));
        }
        i = i + 1;
    }
    proof {
        assert(cat_view(resources@).subrange(0, resources@.len() as int) =~= cat_view(
            resources@,
        ));
    }
    out
}

} // verus!
