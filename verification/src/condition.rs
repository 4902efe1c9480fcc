//! Platform predicates for `ignore-` and `only-` filters.
use vstd::prelude::*;
use vstd::slice::{slice_subrange, slice_to_vec};
use vstd::string::StringSliceAdditionalSpecFns;
use crate::bytes::{bytes_eq, bytes_eq_str, starts_with};
use crate::errors::ErrorKind;
use crate::num::{parse_u8, spec_parse_u8};

verus! {

/// A condition on the platform a test runs on, parsed from the suffix of an
/// `ignore-<condition>` or `only-<condition>` directive.
#[derive(Debug, PartialEq, Eq)]
pub enum Condition {
    /// The given bytes must appear in the host triple.
    Host(Vec<u8>),
    /// The given bytes must appear in the target triple.
    Target(Vec<u8>),
    /// The pointer width must be exactly this many bits.
    Bitwidth(u8),
    /// The target triple must equal the host triple.
    OnHost,
}

/// Mathematical image of a `Condition`.
pub enum ConditionV {
    Host(Seq<u8>),
    Target(Seq<u8>),
    Bitwidth(u8),
    OnHost,
}

impl View for Condition {
    type V = ConditionV;

    open spec fn view(&self) -> ConditionV {
        match self {
            Condition::Host(s) => ConditionV::Host(s@),
            Condition::Target(s) => ConditionV::Target(s@),
            Condition::Bitwidth(b) => ConditionV::Bitwidth(*b),
            Condition::OnHost => ConditionV::OnHost,
        }
    }
}

impl DeepView for Condition {
    type V = ConditionV;

    open spec fn deep_view(&self) -> ConditionV {
        self.view()
    }
}

/// The accepted condition forms: `on-host`, a decimal bit width followed by
/// `bit`, `target-<substring>`, or `host-<substring>`.
pub open spec fn spec_parse_condition(c: Seq<u8>) -> Result<ConditionV, ErrorKind> {
    let bit = "bit".spec_bytes();
    let target = "target-".spec_bytes();
    let host = "host-".spec_bytes();
    if c == "on-host".spec_bytes() {
        Ok(ConditionV::OnHost)
    } else if c.len() >= bit.len() && c.skip(c.len() - bit.len()) == bit {
        match spec_parse_u8(c.take(c.len() - bit.len())) {
            Some(b) => Ok(ConditionV::Bitwidth(b)),
            None => Err(ErrorKind::InvalidBitwidth),
        }
    } else if target.is_prefix_of(c) {
        Ok(ConditionV::Target(c.skip(target.len() as int)))
    } else if host.is_prefix_of(c) {
        Ok(ConditionV::Host(c.skip(host.len() as int)))
    } else {
        Err(ErrorKind::InvalidCondition)
    }
}

/// Maps an executable parse result to its mathematical image.
pub open spec fn cond_result_view(r: Result<Condition, ErrorKind>) -> Result<
    ConditionV,
    ErrorKind,
> {
    match r {
        Ok(c) => Ok(c@),
        Err(k) => Err(k),
    }
}

impl Condition {
    /// Parses a condition; errors say whether the bit width or the whole form
    /// was at fault.
    pub fn parse(c: &[u8]) -> (r: Result<Condition, ErrorKind>)
        ensures
            cond_result_view(r) == spec_parse_condition(c@),
    {
        let bit = "bit".as_bytes();
        let target = "target-".as_bytes();
        let host = "host-".as_bytes();
        proof {
            if c@.len() >= bit@.len() {
                assert(c@.skip(c@.len() - bit@.len()) =~= c@.subrange(
                    c@.len() - bit@.len(),
                    c@.len() as int,
                ));
            }
        }
        if bytes_eq_str(c, "on-host") {
            Ok(Condition::OnHost)
        } else if c.len() >= bit.len() && bytes_eq(
            slice_subrange(c, c.len() - bit.len(), c.len()),
            bit,
        ) {
            let digits = slice_subrange(c, 0, c.len() - bit.len());
            proof {
                assert(digits@ =~= c@.take(c@.len() - bit@.len()));
            }
            match parse_u8(digits) {
                Some(b) => Ok(Condition::Bitwidth(b)),
                None => Err(ErrorKind::InvalidBitwidth),
            }
        } else if starts_with(c, target) {
            let rest = slice_to_vec(slice_subrange(c, target.len(), c.len()));
            proof {
                assert(rest@ =~= c@.skip(target@.len() as int));
            }
            Ok(Condition::Target(rest))
        } else if starts_with(c, host) {
            let rest = slice_to_vec(slice_subrange(c, host.len(), c.len()));
            proof {
                assert(rest@ =~= c@.skip(host@.len() as int));
            }
            Ok(Condition::Host(rest))
        } else {
            Err(ErrorKind::InvalidCondition)
        }
    }
}

} // verus!
