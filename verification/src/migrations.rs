//! Migrations of the database schema.

use vstd::prelude::*;

verus! {

/// This migration adds `end_time` to `EdrVectorSpec` and renames `time` to `start_time`
pub struct Migration0009EdrProvider;

impl Migration0009EdrProvider {
    /// The version of the schema that is migrated.
    pub fn prev_version(&self) -> (version: Option<String>)
        ensures
            version is Some,
            version->0@ == "0008_band_names"@,
    {
        Some("0008_band_names".to_owned())
    }

    /// The version of the schema after the migration.
    pub fn version(&self) -> (version: String)
        ensures
            version@ == "0009_edr_provider"@,
    {
        "0009_edr_provider".to_owned()
    }

    /// The statements to execute.
    pub fn statements(&self) -> (statements: &'static str)
        ensures
            statements@
                == "\n        ALTER TYPE \"EdrVectorSpec\" \n        RENAME ATTRIBUTE time TO start_time;\n\n        ALTER TYPE \"EdrVectorSpec\" \n        ADD ATTRIBUTE end_time text;\n    "@,
    {
        "\n        ALTER TYPE \"EdrVectorSpec\" \n        RENAME ATTRIBUTE time TO start_time;\n\n        ALTER TYPE \"EdrVectorSpec\" \n        ADD ATTRIBUTE end_time text;\n    "
    }
}

} // verus!
