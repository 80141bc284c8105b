//! The check that an enumeration carries no other serialization mechanism
//! before a mapping is set up for it.

use vstd::prelude::*;
use vstd::string::StringExecFns;

verus! {

/// One attribute on the enumeration, as far as the check needs it.
#[derive(Clone, Debug, PartialEq, Eq)]
pub enum EnumAttr {
    /// A well-formed `derive`, with the plain names that it lists.
    Derive(Vec<String>),
    /// A `derive` that could not be read, with the attribute's name.
    MalformedDerive(String),
    /// Any other attribute.
    Other,
}

/// Why an enumeration cannot have a mapping set up.
#[derive(Clone, Debug, PartialEq, Eq)]
pub enum SetupError {
    /// A `derive` on it could not be read; its name is given.
    MalformedAttribute(String),
    /// It already derives `Serialize` or `Deserialize`.
    ConflictingDerive,
}

/// Whether an attribute with the given path segments is a `derive`.
pub fn is_derive_attr(path: &Vec<String>) -> (r: bool)
    ensures
        r == (path@.len() > 0 && path@[0]@ == "derive"@),
{
    path.len() > 0 && path[0] == String::from_str("derive")
}

pub open spec fn is_serde_derive(name: Seq<char>) -> bool {
    name == "Serialize"@ || name == "Deserialize"@
}

/// What the check makes of one attribute.
pub open spec fn check_attr(a: EnumAttr) -> Result<(), SetupError> {
    match a {
        EnumAttr::Derive(names) => {
            if exists|i: int| 0 <= i < names@.len() && is_serde_derive(#[trigger] names@[i]@) {
                Err(SetupError::ConflictingDerive)
            } else {
                Ok(())
            }
        },
        EnumAttr::MalformedDerive(name) => Err(SetupError::MalformedAttribute(name)),
        EnumAttr::Other => Ok(()),
    }
}

/// What the check makes of the attributes: the first one refused, in order,
/// decides the error.
pub open spec fn check_attrs(attrs: Seq<EnumAttr>) -> Result<(), SetupError>
    decreases attrs.len(),
{
    if attrs.len() == 0 {
        Ok(())
    } else {
        match check_attrs(attrs.drop_last()) {
            Ok(_) => check_attr(attrs.last()),
            Err(e) => Err(e),
        }
    }
}

proof fn lemma_refusal_persists(attrs: Seq<EnumAttr>, n: int)
    requires
        0 <= n <= attrs.len(),
        check_attrs(attrs.subrange(0, n)) is Err,
    ensures
        check_attrs(attrs) == check_attrs(attrs.subrange(0, n)),
    decreases attrs.len() - n,
{
    if n == attrs.len() {
        assert(attrs.subrange(0, n) == attrs);
    } else {
        let p = attrs.drop_last();
        assert(p.subrange(0, n) == attrs.subrange(0, n));
        lemma_refusal_persists(p, n);
    }
}

fn lists_serde_derive(names: &Vec<String>) -> (r: bool)
    ensures
        r == exists|i: int| 0 <= i < names@.len() && is_serde_derive(#[trigger] names@[i]@),
{
    let ser = String::from_str("Serialize");
    let de = String::from_str("Deserialize");
    let mut i: usize = 0;
    while i < names.len()
        invariant
            i <= names@.len(),
            ser@ == "Serialize"@,
            de@ == "Deserialize"@,
            forall|x: int| 0 <= x < i ==> !is_serde_derive(#[trigger] names@[x]@),
        decreases names@.len() - i,
    {
        if names[i] == ser || names[i] == de {
            return true;
        }
        i = i + 1;
    }
    false
}

/// Refuses an enumeration that already derives `Serialize` or `Deserialize`,
/// or whose `derive` attributes cannot be read.
pub fn guard_against_serde_derives(attrs: &Vec<EnumAttr>) -> (r: Result<(), SetupError>)
    ensures
        r == check_attrs(attrs@),
{
    let mut i: usize = 0;
    while i < attrs.len()
        invariant
            i <= attrs@.len(),
            check_attrs(attrs@.subrange(0, i as int)) == Ok::<(), SetupError>(()),
        decreases attrs@.len() - i,
    {
        proof {
            assert(attrs@.subrange(0, i + 1).drop_last() == attrs@.subrange(0, i as int));
        }
        let step = match &attrs[i] {
            EnumAttr::Derive(names) => {
                if lists_serde_derive(names) {
                    Err(SetupError::ConflictingDerive)
                } else {
                    Ok(())
                }
            },
            EnumAttr::MalformedDerive(name) => Err(SetupError::MalformedAttribute(name.clone())),
            EnumAttr::Other => Ok(()),
        };
        if step.is_err() {
            proof {
                lemma_refusal_persists(attrs@, i + 1);
            }
            return step;
        }
        i = i + 1;
    }
    proof {
        assert(attrs@.subrange(0, attrs@.len() as int) == attrs@);
    }
    Ok(())
}

} // verus!
