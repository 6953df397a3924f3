//! The custom resource of the operator.

use vstd::prelude::*;

pub mod v2;

pub use self::v2::{
    get_api_version, ApplyCondition, ConditionStatus, ConditionType, ObjectMeta, WardenSecret,
    WardenSecretSpec, WardenSecretStatus,
};

verus! {

/// The kind of the custom resource.
pub open spec fn resource_kind() -> Seq<char> {
    "WardenSecret"@
}

/// The kind of the custom resource.
pub fn get_kind() -> (kind: &'static str)
    ensures
        kind@ == resource_kind(),
{
    "WardenSecret"
}

/// The resource is a `WardenSecret` of `tomjo.net/v2`.
pub proof fn law_resource_type()
    ensures
        resource_kind() == "WardenSecret"@,
        self::v2::resource_api_version() == "tomjo.net/v2"@,
{
}

} // verus!
