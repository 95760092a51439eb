//! Attribution of a pod to its top controller. The walk is bounded: the pod's
//! controller reference, and for a ReplicaSet or a Job one more hop through
//! that object's own controller reference. Fetching that object is left to
//! the caller, between [`get_pod_owner`] and [`owner_after_lookup`].
use vstd::prelude::*;

verus! {

/// A reference from an object to one of its owners.
#[derive(Debug, PartialEq, Eq)]
pub struct OwnerReference {
    pub name: String,
    pub kind: String,
    /// Whether the owner is the object's managing controller.
    pub controller: bool,
}

impl Clone for OwnerReference {
    fn clone(&self) -> (r: Self)
        ensures
            r == *self,
    {
        OwnerReference { name: self.name.clone(), kind: self.kind.clone(), controller: self.controller }
    }
}

/// The resolved top controller of a pod.
#[derive(Debug, PartialEq, Eq, PartialOrd, Ord)]
pub struct Owner {
    pub name: String,
    pub kind: String,
}

impl Clone for Owner {
    fn clone(&self) -> (r: Self)
        ensures
            r == *self,
    {
        Owner { name: self.name.clone(), kind: self.kind.clone() }
    }
}

impl Owner {
    /// Whether two owners have the same name and kind.
    pub fn same_as(&self, other: &Owner) -> (r: bool)
        ensures
            r == (self.name@ == other.name@ && self.kind@ == other.kind@),
    {
        self.name == other.name && self.kind == other.kind
    }
}

/// The kinds of owner whose own controller is looked up.
#[derive(Debug, Clone, Copy, PartialEq, Eq, Structural)]
pub enum ExpandableKind {
    ReplicaSet,
    Job,
}

/// What resolving a pod's owner needs next.
#[derive(Debug, PartialEq, Eq)]
pub enum OwnerStep {
    /// The pod has no controller reference.
    Unowned,
    /// The controller reference is final.
    Resolved(Owner),
    /// The controller is a ReplicaSet or a Job named `name`: its own
    /// controller is the owner, or `direct` if it has none.
    Lookup { kind: ExpandableKind, name: String, direct: Owner },
}

/// The first reference marked as controller.
pub open spec fn first_controller(refs: Seq<OwnerReference>) -> Option<OwnerReference>
    decreases refs.len(),
{
    if refs.len() == 0 {
        None
    } else if refs[0].controller {
        Some(refs[0])
    } else {
        first_controller(refs.drop_first())
    }
}

pub open spec fn owner_of(r: OwnerReference) -> Owner {
    Owner { name: r.name, kind: r.kind }
}

pub open spec fn expandable(kind: Seq<char>) -> Option<ExpandableKind> {
    if kind == "ReplicaSet"@ {
        Some(ExpandableKind::ReplicaSet)
    } else if kind == "Job"@ {
        Some(ExpandableKind::Job)
    } else {
        None
    }
}

/// The step that a pod with owner references `refs` calls for.
pub open spec fn first_step(refs: Seq<OwnerReference>) -> OwnerStep {
    match first_controller(refs) {
        None => OwnerStep::Unowned,
        Some(r) => match expandable(r.kind@) {
            Some(k) => OwnerStep::Lookup { kind: k, name: r.name, direct: owner_of(r) },
            None => OwnerStep::Resolved(owner_of(r)),
        },
    }
}

/// The owner once the intermediate object's references `parent_refs` are known.
pub open spec fn owner_from_parent(direct: Owner, parent_refs: Seq<OwnerReference>) -> Owner {
    match first_controller(parent_refs) {
        Some(p) => owner_of(p),
        None => direct,
    }
}

/// The first controller reference among `refs`, if any.
pub fn extract_owner(refs: &Vec<OwnerReference>) -> (r: Option<OwnerReference>)
    ensures
        r == first_controller(refs@),
{
    let mut i: usize = 0;
    assert(refs@.subrange(0, refs@.len() as int) =~= refs@);
    while i < refs.len()
        invariant
            i <= refs@.len(),
            first_controller(refs@) == first_controller(refs@.subrange(i as int, refs@.len() as int)),
        decreases refs.len() - i,
    {
        assert(refs@.subrange(i as int, refs@.len() as int).drop_first() =~= refs@.subrange(
            i + 1,
            refs@.len() as int,
        ));
        if refs[i].controller {
            return Some(refs[i].clone());
        }
        i = i + 1;
    }
    assert(refs@.subrange(i as int, refs@.len() as int).len() == 0);
    None
}

/// The kind among the expandable ones that `kind` names.
fn expandable_kind(kind: &String) -> (r: Option<ExpandableKind>)
    ensures
        r == expandable(kind@),
{
    if *kind == String::from_str("ReplicaSet") {
        Some(ExpandableKind::ReplicaSet)
    } else if *kind == String::from_str("Job") {
        Some(ExpandableKind::Job)
    } else {
        None
    }
}

/// First step of owner resolution, from the pod's own owner references.
pub fn get_pod_owner(refs: &Vec<OwnerReference>) -> (r: OwnerStep)
    ensures
        r == first_step(refs@),
{
    match extract_owner(refs) {
        None => OwnerStep::Unowned,
        Some(reference) => {
            let direct = Owner { name: reference.name.clone(), kind: reference.kind.clone() };
            match expandable_kind(&reference.kind) {
                Some(kind) => OwnerStep::Lookup { kind, name: reference.name, direct },
                None => OwnerStep::Resolved(direct),
            }
        },
    }
}

/// Second step of owner resolution: the controller of the looked-up object,
/// or `direct` where that object has no controller reference.
pub fn owner_after_lookup(direct: Owner, parent_refs: &Vec<OwnerReference>) -> (r: Owner)
    ensures
        r == owner_from_parent(direct, parent_refs@),
{
    match extract_owner(parent_refs) {
        Some(p) => Owner { name: p.name, kind: p.kind },
        None => direct,
    }
}

/// Why a lookup by name did not give exactly one object.
#[derive(Debug, Clone, Copy, PartialEq, Eq, Structural)]
pub enum LookupError {
    /// No object has the name.
    NotFound,
    /// More than one object matched.
    Ambiguous,
}

/// The one object that a lookup by name returned; none or several are an error.
pub fn single_match<T>(items: Vec<T>) -> (r: Result<T, LookupError>)
    ensures
        items@.len() == 1 ==> r == Ok::<T, LookupError>(items@[0]),
        items@.len() == 0 ==> r == Err::<T, LookupError>(LookupError::NotFound),
        items@.len() > 1 ==> r == Err::<T, LookupError>(LookupError::Ambiguous),
{
    if items.len() == 0 {
        Err(LookupError::NotFound)
    } else if items.len() > 1 {
        Err(LookupError::Ambiguous)
    } else {
        let mut items = items;
        match items.pop() {
            Some(x) => Ok(x),
            None => Err(LookupError::NotFound),
        }
    }
}

} // verus!
