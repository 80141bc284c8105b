//! Setting up the mapping of one enumeration: its attributes are checked,
//! its configuration is read, and its string table is built, in that order.

use vstd::prelude::*;
use crate::guard::{check_attrs, guard_against_serde_derives, EnumAttr, SetupError};
use crate::mapping::{distinct, first_collision, render_all, views, DuplicateRendering, EnumMapping};
use crate::options::{options_from, AttrParam, ConfigError, EnumStringOptions};

verus! {

/// Why the mapping of an enumeration could not be set up.
#[derive(Clone, Debug, PartialEq, Eq)]
pub enum EnumStringError {
    /// The enumeration already has another serialization mechanism.
    Setup(SetupError),
    /// The configuration was refused.
    Config(ConfigError),
    /// Two variants render to the same string.
    Duplicate(DuplicateRendering),
}

/// Sets up the mapping of the enumeration `enum_name`, with the attributes
/// `attrs` on it, the configuration parameters `params` and the variants
/// `variants` in declaration order.
pub fn enum_string_mapping(
    enum_name: &str,
    attrs: &Vec<EnumAttr>,
    params: &Vec<AttrParam>,
    variants: &Vec<String>,
) -> (r: Result<EnumMapping, EnumStringError>)
    ensures
        check_attrs(attrs@) matches Err(e) ==> r == Err::<EnumMapping, EnumStringError>(
            EnumStringError::Setup(e),
        ),
        check_attrs(attrs@) is Ok ==> (options_from(params@) matches Err(e) ==> r == Err::<
            EnumMapping,
            EnumStringError,
        >(EnumStringError::Config(e))),
        check_attrs(attrs@) is Ok ==> (options_from(params@) matches Ok(o) ==> {
            &&& r is Ok <==> distinct(render_all(enum_name@, views(variants@), o))
            &&& r matches Ok(m) ==> m.wf() && m.names() == views(variants@) && m.table()
                == render_all(enum_name@, views(variants@), o)
            &&& r matches Err(e) ==> e matches EnumStringError::Duplicate(d) && first_collision(
                render_all(enum_name@, views(variants@), o),
                d.first as int,
                d.second as int,
            ) && d.rendered@ == render_all(enum_name@, views(variants@), o)[d.second as int]
        }),
{
    match guard_against_serde_derives(attrs) {
        Ok(()) => {},
        Err(e) => {
            return Err(EnumStringError::Setup(e));
        },
    }
    let options: EnumStringOptions = match EnumStringOptions::from_attr_params(params) {
        Ok(o) => o,
        Err(e) => {
            return Err(EnumStringError::Config(e));
        },
    };
    match EnumMapping::build(enum_name, variants, &options) {
        Ok(m) => Ok(m),
        Err(e) => Err(EnumStringError::Duplicate(e)),
    }
}

} // verus!
