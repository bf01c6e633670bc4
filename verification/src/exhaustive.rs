use vstd::prelude::*;
use crate::ast::{Expr, MatchArm, Pattern};
use crate::error::AnalysisError;
use crate::span::Span;

verus! {

/// The set of values a match scrutinee can take.
#[derive(Debug)]
pub enum MatchDomain {
    /// `int`, `float`, `str`: infinitely many values; only a wildcard covers them.
    Primitive,
    Bool,
    Enum { variants: Vec<String> },
    /// A union `A | B | C`.
    Union { types: Vec<String> },
}

/// Some arm is a wildcard.
pub open spec fn has_wildcard(arms: Seq<MatchArm>) -> bool {
    exists|i: int| 0 <= i < arms.len() && #[trigger] arms[i].pattern is Wildcard
}

/// The pattern is the boolean literal `b`.
pub open spec fn is_bool_pattern(p: Pattern, b: bool) -> bool {
    match p {
        Pattern::Literal(Expr::Bool(v, _)) => v == b,
        _ => false,
    }
}

/// The pattern names enum variant `v`, as a struct pattern or a bare name.
pub open spec fn names_variant(p: Pattern, v: Seq<char>) -> bool {
    match p {
        Pattern::Struct { variant, .. } => variant@ == v,
        Pattern::TypeBinding { ty, .. } => ty@ == v,
        _ => false,
    }
}

/// The pattern binds a value of type `t`.
pub open spec fn binds_type(p: Pattern, t: Seq<char>) -> bool {
    match p {
        Pattern::TypeBinding { ty, .. } => ty@ == t,
        _ => false,
    }
}

/// Some arm is the boolean literal `b`.
pub open spec fn has_bool(arms: Seq<MatchArm>, b: bool) -> bool {
    exists|i: int| 0 <= i < arms.len() && is_bool_pattern(#[trigger] arms[i].pattern, b)
}

/// Some arm names enum variant `v`, as a struct pattern or a bare name.
pub open spec fn covers_variant(arms: Seq<MatchArm>, v: Seq<char>) -> bool {
    exists|i: int| 0 <= i < arms.len() && names_variant(#[trigger] arms[i].pattern, v)
}

/// Some arm binds union member `t` by type.
pub open spec fn covers_type(arms: Seq<MatchArm>, t: Seq<char>) -> bool {
    exists|i: int| 0 <= i < arms.len() && binds_type(#[trigger] arms[i].pattern, t)
}

/// The arms leave some value of the domain uncovered.
pub open spec fn non_exhaustive(arms: Seq<MatchArm>, domain: MatchDomain) -> bool {
    !has_wildcard(arms) && match domain {
        MatchDomain::Primitive => true,
        MatchDomain::Bool => !has_bool(arms, true) || !has_bool(arms, false),
        MatchDomain::Enum { variants } => exists|k: int|
            0 <= k < variants@.len() && !covers_variant(arms, #[trigger] variants@[k]@),
        MatchDomain::Union { types } => exists|k: int|
            0 <= k < types@.len() && !covers_type(arms, #[trigger] types@[k]@),
    }
}

fn arms_have_wildcard(arms: &[MatchArm]) -> (r: bool)
    ensures
        r == has_wildcard(arms@),
{
    let mut i: usize = 0;
    while i < arms.len()
        invariant
            i <= arms@.len(),
            forall|j: int| 0 <= j < i ==> !(#[trigger] arms@[j].pattern is Wildcard),
        decreases arms@.len() - i,
    {
        if let Pattern::Wildcard(_) = arms[i].pattern {
            return true;
        }
        i += 1;
    }
    false
}

fn any_bool_literal(arms: &[MatchArm], val: bool) -> (r: bool)
    ensures
        r == has_bool(arms@, val),
{
    let mut i: usize = 0;
    while i < arms.len()
        invariant
            i <= arms@.len(),
            forall|j: int| 0 <= j < i ==> !is_bool_pattern(#[trigger] arms@[j].pattern, val),
        decreases arms@.len() - i,
    {
        if let Pattern::Literal(Expr::Bool(b, _)) = &arms[i].pattern {
            if *b == val {
                return true;
            }
        }
        i += 1;
    }
    false
}

fn variant_covered(arms: &[MatchArm], variant: &String) -> (r: bool)
    ensures
        r == covers_variant(arms@, variant@),
{
    let mut i: usize = 0;
    while i < arms.len()
        invariant
            i <= arms@.len(),
            forall|j: int| 0 <= j < i ==> !names_variant(#[trigger] arms@[j].pattern, variant@),
        decreases arms@.len() - i,
    {
        let hit = match &arms[i].pattern {
            Pattern::Struct { variant: v, .. } => *v == *variant,
            Pattern::TypeBinding { ty, .. } => *ty == *variant,
            _ => false,
        };
        if hit {
            return true;
        }
        i += 1;
    }
    false
}

fn type_covered(arms: &[MatchArm], ty_name: &String) -> (r: bool)
    ensures
        r == covers_type(arms@, ty_name@),
{
    let mut i: usize = 0;
    while i < arms.len()
        invariant
            i <= arms@.len(),
            forall|j: int| 0 <= j < i ==> !binds_type(#[trigger] arms@[j].pattern, ty_name@),
        decreases arms@.len() - i,
    {
        let hit = match &arms[i].pattern {
            Pattern::TypeBinding { ty, .. } => *ty == *ty_name,
            _ => false,
        };
        if hit {
            return true;
        }
        i += 1;
    }
    false
}

/// Reports one `NonExhaustiveMatch` at `span` when the arms do not cover the domain.
#[verifier::loop_isolation(false)]
pub fn check_exhaustiveness(
    arms: &[MatchArm],
    domain: &MatchDomain,
    span: &Span,
    errors: &mut Vec<AnalysisError>,
)
    ensures
        final(errors)@ == if non_exhaustive(arms@, *domain) {
            old(errors)@.push(AnalysisError::NonExhaustiveMatch { span: *span })
        } else {
            old(errors)@
        },
{
    if arms_have_wildcard(arms) {
        return;
    }
    match domain {
        MatchDomain::Primitive => {
            errors.push(AnalysisError::NonExhaustiveMatch { span: *span });
        },
        MatchDomain::Bool => {
            let has_true = any_bool_literal(arms, true);
            let has_false = any_bool_literal(arms, false);
            if !has_true || !has_false {
                errors.push(AnalysisError::NonExhaustiveMatch { span: *span });
            }
        },
        MatchDomain::Enum { variants } => {
            let mut k: usize = 0;
            while k < variants.len()
                invariant
                    k <= variants@.len(),
                    !has_wildcard(arms@),
                    *domain == (MatchDomain::Enum { variants: *variants }),
                    errors@ == old(errors)@,
                    forall|j: int| 0 <= j < k ==> covers_variant(arms@, #[trigger] variants@[j]@),
                decreases variants@.len() - k,
            {
                if !variant_covered(arms, &variants[k]) {
                    assert(!covers_variant(arms@, variants@[k as int]@));
                    errors.push(AnalysisError::NonExhaustiveMatch { span: *span });
                    return;
                }
                k += 1;
            }
        },
        MatchDomain::Union { types } => {
            let mut k: usize = 0;
            while k < types.len()
                invariant
                    k <= types@.len(),
                    !has_wildcard(arms@),
                    *domain == (MatchDomain::Union { types: *types }),
                    errors@ == old(errors)@,
                    forall|j: int| 0 <= j < k ==> covers_type(arms@, #[trigger] types@[j]@),
                decreases types@.len() - k,
            {
                if !type_covered(arms, &types[k]) {
                    assert(!covers_type(arms@, types@[k as int]@));
                    errors.push(AnalysisError::NonExhaustiveMatch { span: *span });
                    return;
                }
                k += 1;
            }
        },
    }
}


/// A match with a wildcard arm is exhaustive, whatever the scrutinee's domain.
pub proof fn wildcard_arm_makes_match_exhaustive(arms: Seq<MatchArm>, domain: MatchDomain)
    requires
        has_wildcard(arms),
    ensures
        !non_exhaustive(arms, domain),
{
}

/// The boolean a pattern is the literal of, if it is a boolean literal pattern.
pub open spec fn literal_bool(p: Pattern) -> Option<bool> {
    match p {
        Pattern::Literal(e) => match e {
            Expr::Bool(v, _) => Some(v),
            _ => None,
        },
        _ => None,
    }
}

/// Some arm is the literal pattern of boolean value `b`.
pub open spec fn arm_for_value(arms: Seq<MatchArm>, b: bool) -> bool {
    exists|i: int| 0 <= i < arms.len() && literal_bool(#[trigger] arms[i].pattern) == Some(b)
}

/// A match over `bool` is reported non-exhaustive exactly when it has no wildcard arm
/// and one of the two values, `true` or `false`, has no literal arm.
pub proof fn bool_match_needs_both_values(arms: Seq<MatchArm>)
    ensures
        non_exhaustive(arms, MatchDomain::Bool) <==> (!has_wildcard(arms) && (!arm_for_value(arms, true)
            || !arm_for_value(arms, false))),
{
    assert forall|b: bool| has_bool(arms, b) <==> arm_for_value(arms, b) by {
        if has_bool(arms, b) {
            let i = choose|i: int| 0 <= i < arms.len() && is_bool_pattern(#[trigger] arms[i].pattern, b);
            assert(literal_bool(arms[i].pattern) == Some(b));
        }
        if arm_for_value(arms, b) {
            let i = choose|i: int| 0 <= i < arms.len() && literal_bool(#[trigger] arms[i].pattern) == Some(b);
            assert(is_bool_pattern(arms[i].pattern, b));
        }
    }
}


/// Adding arms to a match never makes an exhaustive match non-exhaustive, whatever the
/// domain; and over `int`, `float` or `str` only a wildcard arm makes a match
/// exhaustive.
pub proof fn more_arms_stay_exhaustive(arms: Seq<MatchArm>, extra: Seq<MatchArm>, domain: MatchDomain)
    ensures
        !non_exhaustive(arms, domain) ==> !non_exhaustive(arms + extra, domain),
        non_exhaustive(arms, MatchDomain::Primitive) <==> forall|i: int| 0 <= i < arms.len()
            ==> !(#[trigger] arms[i].pattern is Wildcard),
{
    let all = arms + extra;
    assert forall|i: int| 0 <= i < arms.len() implies #[trigger] all[i] == arms[i] by {}
    if has_wildcard(arms) {
        let i = choose|i: int| 0 <= i < arms.len() && #[trigger] arms[i].pattern is Wildcard;
        assert(all[i] == arms[i]);
    }
    assert forall|b: bool| has_bool(arms, b) implies has_bool(all, b) by {
        let i = choose|i: int| 0 <= i < arms.len() && is_bool_pattern(#[trigger] arms[i].pattern, b);
        assert(all[i] == arms[i]);
    }
    assert forall|v: Seq<char>| covers_variant(arms, v) implies covers_variant(all, v) by {
        let i = choose|i: int| 0 <= i < arms.len() && names_variant(#[trigger] arms[i].pattern, v);
        assert(all[i] == arms[i]);
    }
    assert forall|t: Seq<char>| covers_type(arms, t) implies covers_type(all, t) by {
        let i = choose|i: int| 0 <= i < arms.len() && binds_type(#[trigger] arms[i].pattern, t);
        assert(all[i] == arms[i]);
    }
}

} // verus!
