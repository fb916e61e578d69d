//! What the controllers read from a group and from the objects around it.
use vstd::prelude::*;

use crate::decimal::{parse_unsigned, read_unsigned};
use crate::json::{Json, JsonTree};
use crate::k8::objects::{OwnerReference, SPG_KIND};
use crate::text::{after_prefix, strip_prefix, text_eq};

verus! {

/// An object of the cluster, as far as the controllers look into it.
#[derive(Debug)]
pub struct KubeObject {
    pub name: String,
    pub namespace: Option<String>,
    pub uid: Option<String>,
    pub owners: Vec<OwnerReference>,
    /// What the object holds besides its metadata.
    pub data: Json,
}

/// A text, or another one where there is none.
pub open spec fn text_or(s: Option<String>, default: Seq<char>) -> Seq<char> {
    match s {
        Some(t) => t@,
        None => default,
    }
}

pub fn copy_or(s: &Option<String>, default: &str) -> (r: String)
    ensures
        r@ == text_or(*s, default@),
{
    match s {
        Some(t) => t.clone(),
        None => default.to_owned(),
    }
}

/// The number of units that a group asks for; one where it says nothing usable.
pub open spec fn wanted_replicas(spec: JsonTree) -> u64 {
    match spec.get("replicas"@) {
        Some(v) => match v.as_u64() {
            Some(n) => n,
            None => 1,
        },
        None => 1,
    }
}

/// The identifier of the first unit of a group; zero where it says nothing usable.
pub open spec fn wanted_min_id(spec: JsonTree) -> i64 {
    match spec.get("minId"@) {
        Some(v) => match v.as_i64() {
            Some(n) => n,
            None => 0,
        },
        None => 0,
    }
}

pub fn read_replicas(spec: &Json) -> (n: u64)
    ensures
        n == wanted_replicas(spec@),
{
    match spec.get("replicas") {
        Some(v) => match v.as_u64() {
            Some(n) => n,
            None => 1,
        },
        None => 1,
    }
}

pub fn read_min_id(spec: &Json) -> (n: i64)
    ensures
        n == wanted_min_id(spec@),
{
    match spec.get("minId") {
        Some(v) => match v.as_i64() {
            Some(n) => n,
            None => 0,
        },
        None => 0,
    }
}

/// Whether one of the owners has the identity `uid`.
pub open spec fn owned_by_uid(owners: Seq<OwnerReference>, uid: Seq<char>) -> bool {
    exists|i: int| 0 <= i < owners.len() && (#[trigger] owners[i]).uid@ == uid
}

pub fn is_owned_by_uid(owners: &Vec<OwnerReference>, uid: &str) -> (r: bool)
    ensures
        r == owned_by_uid(owners@, uid@),
{
    let mut i: usize = 0;
    while i < owners.len()
        invariant
            i <= owners@.len(),
            forall|k: int| 0 <= k < i ==> (#[trigger] owners@[k]).uid@ != uid@,
        decreases owners.len() - i,
    {
        if text_eq(owners[i].uid.as_str(), uid) {
            assert(owners@[i as int].uid@ == uid@);
            return true;
        }
        i += 1;
    }
    false
}

/// Whether one of the owners is the group called `name`.
pub open spec fn owned_by_group(owners: Seq<OwnerReference>, name: Seq<char>) -> bool {
    exists|i: int|
        0 <= i < owners.len() && (#[trigger] owners[i]).name@ == name && owners[i].kind@
            == SPG_KIND@
}

pub fn is_owned_by_group(owners: &Vec<OwnerReference>, name: &str) -> (r: bool)
    ensures
        r == owned_by_group(owners@, name@),
{
    let mut i: usize = 0;
    while i < owners.len()
        invariant
            i <= owners@.len(),
            forall|k: int|
                0 <= k < i ==> !((#[trigger] owners@[k]).name@ == name@ && owners@[k].kind@
                    == SPG_KIND@),
        decreases owners.len() - i,
    {
        if text_eq(owners[i].name.as_str(), name) && text_eq(owners[i].kind.as_str(), SPG_KIND) {
            assert(owners@[i as int].name@ == name@);
            return true;
        }
        i += 1;
    }
    false
}

/// The replica index that follows `prefix` in `name`, a number of 16 bits.
pub open spec fn index_after(name: Seq<char>, prefix: Seq<char>) -> Option<nat> {
    match after_prefix(name, prefix) {
        Some(rest) => read_unsigned(rest, u16::MAX as nat),
        None => None,
    }
}

/// Whether `name` is that of a unit, or of an object of a unit, that is no longer wanted: the
/// prefix and an index from `replicas` on.
pub open spec fn beyond_scale(name: Seq<char>, prefix: Seq<char>, replicas: u16) -> bool {
    match index_after(name, prefix) {
        Some(n) => n >= replicas,
        None => false,
    }
}

pub fn is_beyond_scale(name: &str, prefix: &str, replicas: u16) -> (r: bool)
    ensures
        r == beyond_scale(name@, prefix@, replicas),
{
    match strip_prefix(name, prefix) {
        Some(rest) => match parse_unsigned(rest.as_str(), 0xffff) {
            Some(n) => n >= replicas as u64,
            None => false,
        },
        None => false,
    }
}

} // verus!
