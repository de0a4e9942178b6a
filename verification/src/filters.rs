//! The filter engine: a closed set of predicates evaluated read-only against
//! one parsed record, distinguishing a predicate that fails from one that
//! returns false.

use vstd::prelude::*;
use crate::parser::{edek_from_bytes, edek_from_bytes_spec};
use crate::schema::{DekView, EncryptedDek, ParseError};

verus! {

/// One predicate over a parsed record.
#[derive(Clone, Copy, PartialEq, Eq, Structural, Debug)]
pub enum Filter {
    /// Does the record's KMS configuration id equal this target?
    ConfigId(i32),
    /// Does the record's leased key disagree with its own configuration id?
    Mismatched,
}

/// Why one filter failed to evaluate.
#[derive(Clone, Copy, PartialEq, Eq, Structural, Debug)]
pub enum FilterError {
    /// The mismatch filter could not parse the record's leased-key data.
    UnparsableLeasedKey(ParseError),
}

/// What evaluating one filter against one record returns: whether the record
/// passes, or why the filter could not tell.
pub open spec fn execute_filter_spec(filter: Filter, d: DekView) -> Result<bool, FilterError> {
    match filter {
        Filter::ConfigId(target) => Ok(d.kms_config_id == target),
        Filter::Mismatched => {
            if d.leased_key_data.len() == 0 {
                Ok(false)
            } else {
                match edek_from_bytes_spec(d.leased_key_data) {
                    Ok(lease) => Ok(lease.kms_config_id != d.kms_config_id),
                    Err(e) => Err(FilterError::UnparsableLeasedKey(e)),
                }
            }
        },
    }
}

/// Does the record's configuration id equal the sought one? Never fails.
pub fn execute_config_id_filter(parsed_edek: &EncryptedDek, config_id_to_match: i32) -> (r: Result<
    bool,
    FilterError,
>)
    ensures
        r == execute_filter_spec(Filter::ConfigId(config_id_to_match), parsed_edek@),
{
    Ok(parsed_edek.kms_config_id == config_id_to_match)
}

/// Does the record's leased key carry another configuration id than the
/// record itself? No lease means no mismatch; a lease that does not parse is
/// an evaluation failure.
pub fn execute_mismatched_filter(parsed_edek: &EncryptedDek) -> (r: Result<bool, FilterError>)
    ensures
        r == execute_filter_spec(Filter::Mismatched, parsed_edek@),
{
    if parsed_edek.leased_key_data.len() != 0 {
        match edek_from_bytes(parsed_edek.leased_key_data.as_slice()) {
            Ok(lk_edek) => Ok(lk_edek.kms_config_id != parsed_edek.kms_config_id),
            Err(e) => Err(FilterError::UnparsableLeasedKey(e)),
        }
    } else {
        Ok(false)
    }
}

/// Evaluates one filter against one parsed record.
pub fn execute_filter(filter: &Filter, parsed_edek: &EncryptedDek) -> (r: Result<
    bool,
    FilterError,
>)
    ensures
        r == execute_filter_spec(*filter, parsed_edek@),
{
    match filter {
        Filter::ConfigId(config_id) => execute_config_id_filter(parsed_edek, *config_id),
        Filter::Mismatched => execute_mismatched_filter(parsed_edek),
    }
}

/// The configuration-id filter never fails, answers true against a record
/// whose id equals the target, and false against every other record.
pub proof fn lemma_config_id_filter(d: DekView, target: i32)
    ensures
        execute_filter_spec(Filter::ConfigId(target), d) == Ok::<bool, FilterError>(
            d.kms_config_id == target,
        ),
{
}

/// Against a record without a lease, the mismatch filter answers false.
pub proof fn lemma_mismatched_filter_no_lease(d: DekView)
    requires
        d.leased_key_data.len() == 0,
    ensures
        execute_filter_spec(Filter::Mismatched, d) == Ok::<bool, FilterError>(false),
{
}

/// Against a record whose lease parses, the mismatch filter answers true
/// exactly when the two configuration ids differ; against a record whose
/// lease does not parse, it fails with that parse error.
pub proof fn lemma_mismatched_filter_lease(d: DekView)
    requires
        d.leased_key_data.len() > 0,
    ensures
        execute_filter_spec(Filter::Mismatched, d) == match edek_from_bytes_spec(
            d.leased_key_data,
        ) {
            Ok(lease) => Ok::<bool, FilterError>(lease.kms_config_id != d.kms_config_id),
            Err(e) => Err::<bool, FilterError>(FilterError::UnparsableLeasedKey(e)),
        },
{
}

} // verus!
