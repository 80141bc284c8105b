//! The configuration of a mapping, read from the parameters of the attribute
//! that asks for it.

use vstd::prelude::*;
use vstd::string::StringExecFns;
use crate::string_transform::StringTransform;

verus! {

/// How the variants of one enumeration are rendered.
#[derive(Clone, Copy, Debug, PartialEq, Eq, Structural)]
pub struct EnumStringOptions {
    /// The case style applied last, if any.
    pub transform: Option<StringTransform>,
    /// Whether the enumeration's name is put in front of each variant's name.
    pub prepend_enum_name: bool,
}

impl Default for EnumStringOptions {
    fn default() -> (r: Self)
        ensures
            r.transform is None,
            !r.prepend_enum_name,
    {
        EnumStringOptions { transform: None, prepend_enum_name: false }
    }
}

/// One parameter of the attribute, as written.
#[derive(Clone, Debug, PartialEq, Eq)]
pub enum AttrParam {
    /// `key = literal`: the key, and the literal's text when it is a string.
    NameValue(String, Option<String>),
    /// A bare word.
    Word(String),
    /// Anything else, as its text.
    Other(String),
}

/// Why a configuration was refused.
#[derive(Clone, Debug, PartialEq, Eq)]
pub enum ConfigError {
    /// `transform` names no case style.
    InvalidTransform(String),
    /// `transform` is given something other than a string.
    TransformNotString,
    /// A `key = value` parameter with an unknown key.
    UnknownKey(String),
    /// A bare word that is not a known flag.
    UnknownKeyword(String),
    /// A parameter of some other form.
    UnknownSyntax(String),
}

pub open spec fn default_options() -> EnumStringOptions {
    EnumStringOptions { transform: None, prepend_enum_name: false }
}

/// The effect of one parameter on the options read so far.
pub open spec fn apply_param(o: EnumStringOptions, p: AttrParam) -> Result<
    EnumStringOptions,
    ConfigError,
> {
    match p {
        AttrParam::NameValue(key, value) => {
            if key@ == "transform"@ {
                match value {
                    Some(text) => match StringTransform::from_keyword(text@) {
                        Some(t) => Ok(EnumStringOptions { transform: Some(t), ..o }),
                        None => Err(ConfigError::InvalidTransform(text)),
                    },
                    None => Err(ConfigError::TransformNotString),
                }
            } else {
                Err(ConfigError::UnknownKey(key))
            }
        },
        AttrParam::Word(word) => {
            if word@ == "prepend_enum_name"@ {
                Ok(EnumStringOptions { prepend_enum_name: true, ..o })
            } else {
                Err(ConfigError::UnknownKeyword(word))
            }
        },
        AttrParam::Other(text) => Err(ConfigError::UnknownSyntax(text)),
    }
}

/// The options that the parameters give, read in order from the defaults;
/// the first parameter that is refused decides the error.
pub open spec fn options_from(ps: Seq<AttrParam>) -> Result<EnumStringOptions, ConfigError>
    decreases ps.len(),
{
    if ps.len() == 0 {
        Ok(default_options())
    } else {
        match options_from(ps.drop_last()) {
            Ok(o) => apply_param(o, ps.last()),
            Err(e) => Err(e),
        }
    }
}

/// Once a prefix of the parameters is refused, so are all of them, and
/// with the same error.
proof fn lemma_error_persists(ps: Seq<AttrParam>, n: int)
    requires
        0 <= n <= ps.len(),
        options_from(ps.subrange(0, n)) is Err,
    ensures
        options_from(ps) == options_from(ps.subrange(0, n)),
    decreases ps.len() - n,
{
    if n == ps.len() {
        assert(ps.subrange(0, n) == ps);
    } else {
        let p = ps.drop_last();
        assert(p.subrange(0, n) == ps.subrange(0, n));
        lemma_error_persists(p, n);
    }
}

impl EnumStringOptions {
    /// The effect of one parameter on the options `o`.
    fn apply_param(o: EnumStringOptions, p: &AttrParam) -> (r: Result<EnumStringOptions, ConfigError>)
        ensures
            r == apply_param(o, *p),
    {
        match p {
            AttrParam::NameValue(key, value) => {
                if *key == String::from_str("transform") {
                    match value {
                        Some(text) => match StringTransform::from_str(text.as_str()) {
                            Some(t) => Ok(EnumStringOptions { transform: Some(t), ..o }),
                            None => Err(ConfigError::InvalidTransform(text.clone())),
                        },
                        None => Err(ConfigError::TransformNotString),
                    }
                } else {
                    Err(ConfigError::UnknownKey(key.clone()))
                }
            },
            AttrParam::Word(word) => {
                if *word == String::from_str("prepend_enum_name") {
                    Ok(EnumStringOptions { prepend_enum_name: true, ..o })
                } else {
                    Err(ConfigError::UnknownKeyword(word.clone()))
                }
            },
            AttrParam::Other(text) => Err(ConfigError::UnknownSyntax(text.clone())),
        }
    }

    /// Reads the options from the attribute's parameters.
    pub fn from_attr_params(params: &Vec<AttrParam>) -> (r: Result<EnumStringOptions, ConfigError>)
        ensures
            r == options_from(params@),
    {
        let mut options = EnumStringOptions { transform: None, prepend_enum_name: false };
        let mut i: usize = 0;
        while i < params.len()
            invariant
                i <= params@.len(),
                options_from(params@.subrange(0, i as int)) == Ok::<
                    EnumStringOptions,
                    ConfigError,
                >(options),
            decreases params@.len() - i,
        {
            proof {
                assert(params@.subrange(0, i + 1).drop_last() == params@.subrange(0, i as int));
            }
            let step = Self::apply_param(options, &params[i]);
            match step {
                Ok(o) => {
                    options = o;
                },
                Err(e) => {
                    proof {
                        lemma_error_persists(params@, i + 1);
                    }
                    return Err(e);
                },
            }
            i = i + 1;
        }
        proof {
            assert(params@.subrange(0, params@.len() as int) == params@);
        }
        Ok(options)
    }
}

} // verus!
