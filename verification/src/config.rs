//! The immutable configuration of the gateway, built once at startup from
//! raw environment values and passed by reference into the classifier, the
//! limiters and the orchestrator.

use vstd::prelude::*;

verus! {

use crate::text::{all_digits, csv_fields, digits_val, parse_u32, split_csv};
use vstd::string::StringExecFns;

/// The comma-separated fields of a raw environment value, trimmed, empty
/// fields dropped; an absent value yields no fields.
pub fn env_var_to_vec(raw: Option<String>) -> (fields: Vec<String>)
    ensures
        fields.deep_view() == match raw {
            Option::Some(s) => csv_fields(s@),
            Option::None => Seq::<Seq<char>>::empty(),
        },
{
    match raw {
        Option::Some(s) => split_csv(s.as_str()),
        Option::None => Vec::new(),
    }
}

/// The configuration the core consumes: the hostname whitelist, the
/// internal bypass secret and the per-tier burst sizes.
pub struct GatewayConfig {
    pub whitelist: Vec<String>,
    pub internal_key: String,
    pub public_burst: u32,
    pub authenticated_burst: u32,
    pub internal_burst: u32,
}

/// Builds the configuration from the raw environment values: the whitelist
/// is parsed as a comma-separated list, an absent secret is the empty
/// string, and the burst sizes are taken as given.
pub fn build_config(
    whitelist_raw: Option<String>,
    internal_key_raw: Option<String>,
    public_burst: u32,
    authenticated_burst: u32,
    internal_burst: u32,
) -> (c: GatewayConfig)
    ensures
        c.whitelist.deep_view() == match whitelist_raw {
            Option::Some(s) => csv_fields(s@),
            Option::None => Seq::<Seq<char>>::empty(),
        },
        c.internal_key@ == match internal_key_raw {
            Option::Some(s) => s@,
            Option::None => Seq::<char>::empty(),
        },
        c.public_burst == public_burst,
        c.authenticated_burst == authenticated_burst,
        c.internal_burst == internal_burst,
{
    let internal_key = match internal_key_raw {
        Option::Some(s) => s,
        Option::None => String::new(),
    };
    GatewayConfig {
        whitelist: env_var_to_vec(whitelist_raw),
        internal_key,
        public_burst,
        authenticated_burst,
        internal_burst,
    }
}

/// The configured burst size, read from its raw environment value: a
/// decimal number within `u32`, else the default of five.
pub fn get_load_burst_size(raw: Option<String>) -> (burst: u32)
    ensures
        burst as int == match raw {
            Option::Some(s) => if all_digits(s@) && digits_val(s@) <= u32::MAX as int {
                digits_val(s@)
            } else {
                5
            },
            Option::None => 5,
        },
{
    match raw {
        Option::Some(s) => match parse_u32(s.as_str()) {
            Option::Some(v) => v,
            Option::None => 5,
        },
        Option::None => 5,
    }
}

/// The port to listen on: the raw environment value when it is a decimal
/// number within `u16`, else the caller's fallback, else 3000.
pub fn select_port(raw: Option<String>, fallback: Option<u16>) -> (port: u16)
    ensures
        port as int == match raw {
            Option::Some(s) => if all_digits(s@) && digits_val(s@) <= u16::MAX as int {
                digits_val(s@)
            } else {
                match fallback {
                    Option::Some(p) => p as int,
                    Option::None => 3000,
                }
            },
            Option::None => match fallback {
                Option::Some(p) => p as int,
                Option::None => 3000,
            },
        },
{
    let fb: u16 = match fallback {
        Option::Some(p) => p,
        Option::None => 3000,
    };
    match raw {
        Option::Some(s) => match parse_u32(s.as_str()) {
            Option::Some(v) => if v <= u16::MAX as u32 {
                v as u16
            } else {
                fb
            },
            Option::None => fb,
        },
        Option::None => fb,
    }
}

} // verus!
