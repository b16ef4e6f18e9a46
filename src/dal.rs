//! The configuration store's side: which store backend to use, how to reach
//! it, and how its records make up a model descriptor.

use vstd::prelude::*;

use crate::config::{groups, MEALArgs};
use crate::params::ParamMap;
use crate::text::{cat, has_prefix, starts_with};

verus! {

/// How to reach the configuration store.
pub struct DALArgs {
    pub connection_url: String,
    pub username: String,
    pub password: String,
}

/// What every store backend is built from.
pub trait DatabaseDriver {
    fn new(dal_args: DALArgs) -> Self where Self: Sized;
}

/// The settings of a SurrealDB store: where it is, who signs in, and which
/// namespace and database hold the model records.
pub struct SurrealDriver {
    pub connection_url: String,
    pub username: String,
    pub password: String,
    pub namespace: String,
    pub database: String,
}

impl DatabaseDriver for SurrealDriver {
    fn new(dal_args: DALArgs) -> SurrealDriver {
        SurrealDriver::from_args(dal_args)
    }
}

/// The settings that `dal_args` give, in the namespace and database that hold
/// the model records.
pub open spec fn settings_from(d: SurrealDriver, a: DALArgs) -> bool {
    &&& d.connection_url@ == a.connection_url@
    &&& d.username@ == a.username@
    &&& d.password@ == a.password@
    &&& d.namespace@ == "ModelExecutorRuntimeNS"@
    &&& d.database@ == "ModelExecutorRuntimeDB"@
}

/// A store on this machine is reached over plain websockets, any other over TLS.
pub open spec fn is_local_url(url: Seq<char>) -> bool {
    starts_with(url, "localhost:"@) || starts_with(url, "127.0.0.1:"@) || starts_with(
        url,
        "0.0.0.0:"@,
    )
}

impl SurrealDriver {
    /// The settings for the store that `dal_args` describe.
    pub fn from_args(dal_args: DALArgs) -> (r: SurrealDriver)
        ensures
            settings_from(r, dal_args),
    {
        SurrealDriver {
            connection_url: dal_args.connection_url,
            username: dal_args.username,
            password: dal_args.password,
            namespace: String::from_str("ModelExecutorRuntimeNS"),
            database: String::from_str("ModelExecutorRuntimeDB"),
        }
    }

    /// Whether the store is reached over plain websockets rather than TLS.
    pub fn uses_plain_websocket(&self) -> (r: bool)
        ensures
            r == is_local_url(self.connection_url@),
    {
        let u = self.connection_url.as_str();
        has_prefix(u, "localhost:") || has_prefix(u, "127.0.0.1:") || has_prefix(u, "0.0.0.0:")
    }
}

/// The data access layer: the store backend that holds the model descriptors.
pub struct DAL {
    pub driver: SurrealDriver,
}

impl DAL {
    /// Builds the layer for the backend `driver_type` names; `"surreal"` is
    /// the one there is.
    pub fn create(driver_type: &str, dal_args: DALArgs) -> (r: Result<DAL, String>)
        ensures
            r is Ok <==> driver_type@ == "surreal"@,
            r matches Ok(d) ==> settings_from(d.driver, dal_args),
            r matches Err(m) ==> m@ == "Unknown DAL driver type: "@ + driver_type@,
    {
        if String::from_str(driver_type) == String::from_str("surreal") {
            Ok(DAL { driver: SurrealDriver::from_args(dal_args) })
        } else {
            Err(cat("Unknown DAL driver type: ", driver_type))
        }
    }
}

/// Makes a descriptor from the three records the store keeps for a model:
/// its static fields, with `uid` added, then its connection parameters, then
/// its model parameters.
pub fn assemble_model(
    uid: &String,
    static_fields: ParamMap,
    connection_params: ParamMap,
    model_params: ParamMap,
) -> (r: MEALArgs)
    ensures
        groups(&r) == seq![
            static_fields@.insert("uid"@, uid@),
            connection_params@,
            model_params@,
        ],
{
    let mut identity = static_fields;
    identity.insert(String::from_str("uid"), uid.clone());
    let mut v: Vec<ParamMap> = Vec::new();
    v.push(identity);
    v.push(connection_params);
    v.push(model_params);
    let r = MEALArgs { meal_config: v };
    proof {
        assert(groups(&r) =~= seq![
            static_fields@.insert("uid"@, uid@),
            connection_params@,
            model_params@,
        ]);
    }
    r
}

/// The models the store returned, or an error where there are none.
pub fn require_models(models: Vec<MEALArgs>) -> (r: Result<Vec<MEALArgs>, String>)
    ensures
        r is Ok <==> models@.len() > 0,
        r matches Ok(v) ==> v@ == models@,
        r matches Err(m) ==> m@ == "No available models found in the DB"@,
{
    if models.len() == 0 {
        Err(String::from_str("No available models found in the DB"))
    } else {
        Ok(models)
    }
}

} // verus!
