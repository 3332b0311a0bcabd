//! The field resolver: looking up a single-select option id by
//! case-insensitive, whitespace-trimmed prefix match against option names.

use vstd::prelude::*;
use crate::project_details::{Field, FieldOptionV, FieldV};
use crate::text::{lower, trim, prefix_matches_trimmed_ci};

verus! {

/// A configured option name had no match among a field's options. Fatal:
/// the board or the configuration needs operator attention.
#[derive(Debug, Clone, Copy, PartialEq, Eq, Structural)]
pub enum FieldError {
    FieldNotFound,
}

/// `wanted`, lower-cased, is a prefix of the option's trimmed, lower-cased
/// name.
pub open spec fn option_matches(o: FieldOptionV, wanted: Seq<char>) -> bool {
    lower(wanted).is_prefix_of(lower(trim(o.name)))
}

/// The position of the first option matching `wanted`, if any.
pub open spec fn first_match(options: Seq<FieldOptionV>, wanted: Seq<char>) -> Option<int>
    decreases options.len(),
{
    if options.len() == 0 {
        None
    } else if option_matches(options[0], wanted) {
        Some(0)
    } else {
        match first_match(options.drop_first(), wanted) {
            None => None,
            Some(i) => Some(i + 1),
        }
    }
}

/// The id of the first option matching `wanted`, if any. This is what the
/// resolver returns on success.
pub open spec fn resolved_id(field: FieldV, wanted: Seq<char>) -> Option<Seq<char>> {
    match first_match(field.options, wanted) {
        Some(i) => Some(field.options[i].id),
        None => None,
    }
}

/// `first_match` returns the least matching position, and `None` exactly
/// when no option matches.
pub proof fn lemma_first_match(options: Seq<FieldOptionV>, wanted: Seq<char>)
    ensures
        match first_match(options, wanted) {
            Some(i) => 0 <= i < options.len() && option_matches(options[i], wanted) && forall|
                j: int,
            | 0 <= j < i ==> !option_matches(options[j], wanted),
            None => forall|j: int| 0 <= j < options.len() ==> !option_matches(options[j], wanted),
        },
    decreases options.len(),
{
    if options.len() == 0 {
    } else if option_matches(options[0], wanted) {
    } else {
        let rest = options.drop_first();
        lemma_first_match(rest, wanted);
        assert forall|j: int| 0 <= j < rest.len() implies #[trigger] rest[j] == options[j + 1] by {}
        match first_match(rest, wanted) {
            None => {
                assert forall|j: int| 0 <= j < options.len() implies !option_matches(
                    options[j],
                    wanted,
                ) by {
                    if j > 0 {
                        assert(options[j] == rest[j - 1]);
                    }
                }
            },
            Some(i) => {
                assert(options[i + 1] == rest[i]);
                assert forall|j: int| 0 <= j < i + 1 implies !option_matches(options[j], wanted) by {
                    if j > 0 {
                        assert(options[j] == rest[j - 1]);
                    }
                }
            },
        }
    }
}

/// The id of the first option whose name starts (case-insensitively, after
/// trimming) with `wanted`; `FieldNotFound` exactly when no option matches.
pub fn resolve_option_id(field: &Field, wanted: &str) -> (r: Result<String, FieldError>)
    ensures
        r is Ok <==> resolved_id(field@, wanted@) is Some,
        r matches Ok(id) ==> resolved_id(field@, wanted@) == Some(id@),
        r matches Err(e) ==> e == FieldError::FieldNotFound,
{
    proof {
        lemma_first_match(field@.options, wanted@);
    }
    let n = field.options.len();
    let mut k: usize = 0;
    while k < n
        invariant
            k <= n,
            n == field@.options.len(),
            forall|j: int| 0 <= j < k ==> !option_matches(field@.options[j], wanted@),
            match first_match(field@.options, wanted@) {
                Some(i) => 0 <= i < n && option_matches(field@.options[i], wanted@) && forall|
                    j: int,
                | 0 <= j < i ==> !option_matches(field@.options[j], wanted@),
                None => forall|j: int| 0 <= j < n ==> !option_matches(field@.options[j], wanted@),
            },
        decreases n - k,
    {
        if prefix_matches_trimmed_ci(field.options[k].name.as_str(), wanted) {
            proof {
                assert(option_matches(field@.options[k as int], wanted@));
                let fm = first_match(field@.options, wanted@);
                assert(fm is Some);
                let i = fm.unwrap();
                assert(!(i < k) && !(k < i));
            }
            return Ok(field.options[k].id.clone());
        }
        k = k + 1;
    }
    Err(FieldError::FieldNotFound)
}

} // verus!
