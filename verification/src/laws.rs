//! Properties that relate several operations on vectors.
use vstd::prelude::*;

use crate::entries::{
    all_zero, can_subtract, canonical, entry_views, lemma_canonical_unique, lemma_total_zero,
    merge_add, minus, no_saturation, positive_part, sat_add, total,
};
use crate::auth_ratio::{grade_of, MagnitudeGrade};
use crate::certification::{reason_text, resolved_state};
use crate::error::AuthxError;
use crate::origin::{origin_accepted, origin_refusal, prefix_message, OriginRequest};
use crate::record::{
    components_debug, entries_debug, event_fields, string_views, text_hash,
};
use crate::text::{decimal, hex_char, is_blank_spec, lower_code};
use crate::types::{lemma_risk_names_distinct, risk_level_of, CertificationState, RiskLevel, VectorType};
use crate::vector::VectorState;

verus! {

/// Subtracting what was just added succeeds and gives back the original
/// components, except those whose amount was zero (a subtraction drops the
/// components it leaves at zero), provided the addition did not saturate.
pub proof fn law_add_then_sub_restores(a: Map<Seq<char>, u128>, b: Map<Seq<char>, u128>)
    requires
        no_saturation(a, b),
    ensures
        can_subtract(merge_add(a, b), b),
        positive_part(minus(merge_add(a, b), b)) == positive_part(a),
{
    let s = merge_add(a, b);
    assert forall|k: Seq<char>| #[trigger] b.contains_key(k) implies s.contains_key(k) && s[k]
        >= b[k] by {
        if a.contains_key(k) {
            assert(a[k] + b[k] <= u128::MAX);
        }
    }
    let lhs = positive_part(minus(s, b));
    let rhs = positive_part(a);
    assert forall|k: Seq<char>| #[trigger] lhs.contains_key(k) <==> rhs.contains_key(k) by {
        if a.contains_key(k) && b.contains_key(k) {
            assert(a[k] + b[k] <= u128::MAX);
            assert(sat_add(a[k], b[k]) == a[k] + b[k]);
        }
    }
    assert forall|k: Seq<char>| #[trigger] lhs.contains_key(k) implies lhs[k] == rhs[k] by {
        if a.contains_key(k) && b.contains_key(k) {
            assert(a[k] + b[k] <= u128::MAX);
        }
    }
    assert(lhs =~= rhs);
}

/// Adding the zero vector, on either side, changes nothing.
pub proof fn law_zero_is_neutral(a: Map<Seq<char>, u128>)
    ensures
        merge_add(a, Map::empty()) == a,
        merge_add(Map::empty(), a) == a,
{
    assert(merge_add(a, Map::empty()) =~= a);
    assert(merge_add(Map::empty(), a) =~= a);
}

/// A vector is zero exactly when its magnitude is zero.
pub proof fn law_zero_iff_no_magnitude(v: VectorState)
    requires
        canonical(v.entries()),
    ensures
        all_zero(v@) <==> total(v.entries()) == 0,
{
    lemma_total_zero(v.entries());
}

/// Entries with the same keys and amounts have the same total and render alike.
proof fn lemma_views_decide(s: Seq<(String, u128)>, t: Seq<(String, u128)>)
    requires
        entry_views(s) == entry_views(t),
    ensures
        total(s) == total(t),
        entries_debug(s) == entries_debug(t),
    decreases s.len(),
{
    assert(s.len() == entry_views(s).len());
    assert(t.len() == entry_views(t).len());
    if s.len() > 0 {
        assert(entry_views(s.drop_last()) =~= entry_views(s).drop_last());
        assert(entry_views(t.drop_last()) =~= entry_views(t).drop_last());
        assert(entry_views(s)[s.len() - 1] == entry_views(t)[s.len() - 1]);
        assert(entry_views(s)[0] == entry_views(t)[0]);
        lemma_views_decide(s.drop_last(), t.drop_last());
    }
}

/// Vectors with the same components have the same magnitude, and an event
/// hash does not tell them apart: with the other fields equal, events over
/// either vector hash identically (replay rebuilds the same records).
pub proof fn law_same_components_same_record(
    v: VectorState,
    w: VectorState,
    eid: Seq<char>,
    parent_hashes: Seq<String>,
    region_id: Seq<char>,
    entity_id: Seq<char>,
    operation: Seq<char>,
    auth_ratio_text: Seq<char>,
    certified: bool,
    logical_clock: u64,
    timestamp: u64,
    other: VectorState,
    proof_text: Seq<char>,
)
    requires
        canonical(v.entries()),
        canonical(w.entries()),
        v@ == w@,
    ensures
        total(v.entries()) == total(w.entries()),
        text_hash(
            event_fields(
                eid,
                parent_hashes,
                region_id,
                entity_id,
                operation,
                auth_ratio_text,
                certified,
                logical_clock,
                timestamp,
                other.entries(),
                v.entries(),
                proof_text,
            ),
        ) == text_hash(
            event_fields(
                eid,
                parent_hashes,
                region_id,
                entity_id,
                operation,
                auth_ratio_text,
                certified,
                logical_clock,
                timestamp,
                other.entries(),
                w.entries(),
                proof_text,
            ),
        ),
        text_hash(
            event_fields(
                eid,
                parent_hashes,
                region_id,
                entity_id,
                operation,
                auth_ratio_text,
                certified,
                logical_clock,
                timestamp,
                v.entries(),
                other.entries(),
                proof_text,
            ),
        ) == text_hash(
            event_fields(
                eid,
                parent_hashes,
                region_id,
                entity_id,
                operation,
                auth_ratio_text,
                certified,
                logical_clock,
                timestamp,
                w.entries(),
                other.entries(),
                proof_text,
            ),
        ),
{
    lemma_canonical_unique(v.entries(), w.entries());
    lemma_views_decide(v.entries(), w.entries());
    assert(components_debug(v.entries()) == components_debug(w.entries()));
}

// ---------------------------------------------------------------------------
// Decisions
// ---------------------------------------------------------------------------

/// Certification controls take precedence in a fixed order: a hold gives
/// `Pending`; otherwise a revocation gives `Revoked` and then a suspension
/// `Suspended`, whatever the AuthRatio outcome; only with no control does the
/// outcome decide between `Certified` and `Uncertified`.
pub proof fn law_certification_precedence(
    force_pending: bool,
    revoked: bool,
    suspended: bool,
    score_certified: bool,
)
    ensures
        force_pending ==> resolved_state(force_pending, revoked, suspended, score_certified)
            == CertificationState::Pending,
        !force_pending && revoked ==> resolved_state(
            force_pending,
            revoked,
            suspended,
            score_certified,
        ) == CertificationState::Revoked,
        !force_pending && !revoked && suspended ==> resolved_state(
            force_pending,
            revoked,
            suspended,
            score_certified,
        ) == CertificationState::Suspended,
        !force_pending && !revoked && !suspended ==> resolved_state(
            force_pending,
            revoked,
            suspended,
            score_certified,
        ) == (if score_certified {
            CertificationState::Certified
        } else {
            CertificationState::Uncertified
        }),
        // The outcome of the score matters only when no control holds.
        force_pending || revoked || suspended ==> resolved_state(
            force_pending,
            revoked,
            suspended,
            true,
        ) == resolved_state(force_pending, revoked, suspended, false),
{
}

/// The reason recorded with each state other than `Certified`.
pub proof fn law_certification_reasons()
    ensures
        reason_text(CertificationState::Pending) == "pending validation"@,
        reason_text(CertificationState::Uncertified) == "AuthRatio below threshold or proof missing"@,
        reason_text(CertificationState::Suspended) == "temporarily blocked by policy"@,
        reason_text(CertificationState::Revoked)
            == "revoked by policy or explicit reauthorization required"@,
{
}

/// The fields of an event hash, in order: each input field in its place, the
/// certification flag as `true` or `false` according to the flag, clock and
/// timestamp in decimal, then the parent hashes.
pub proof fn law_event_fields_layout(
    eid: Seq<char>,
    parent_hashes: Seq<String>,
    region_id: Seq<char>,
    entity_id: Seq<char>,
    operation: Seq<char>,
    auth_ratio_text: Seq<char>,
    certified: bool,
    logical_clock: u64,
    timestamp: u64,
    v_before: Seq<(String, u128)>,
    v_after: Seq<(String, u128)>,
    proof_text: Seq<char>,
)
    ensures
        ({
            let f = event_fields(
                eid,
                parent_hashes,
                region_id,
                entity_id,
                operation,
                auth_ratio_text,
                certified,
                logical_clock,
                timestamp,
                v_before,
                v_after,
                proof_text,
            );
            &&& f.len() == 11 + parent_hashes.len()
            &&& f[0] == eid
            &&& f[1] == region_id
            &&& f[2] == entity_id
            &&& f[3] == operation
            &&& f[4] == auth_ratio_text
            &&& certified ==> f[5] == "true"@
            &&& !certified ==> f[5] == "false"@
            &&& f[6] == decimal(logical_clock as nat)
            &&& f[7] == decimal(timestamp as nat)
            &&& f[10] == proof_text
            &&& forall|i: int| 0 <= i < parent_hashes.len() ==> #[trigger] f[11 + i] == parent_hashes[i]@
        }),
{
}

/// Two events that differ only in the certification flag have different
/// field lists: the flag is bound into the event hash.
pub proof fn law_event_binds_certified_flag(
    eid: Seq<char>,
    parent_hashes: Seq<String>,
    region_id: Seq<char>,
    entity_id: Seq<char>,
    operation: Seq<char>,
    auth_ratio_text: Seq<char>,
    logical_clock: u64,
    timestamp: u64,
    v_before: Seq<(String, u128)>,
    v_after: Seq<(String, u128)>,
    proof_text: Seq<char>,
)
    ensures
        event_fields(
            eid,
            parent_hashes,
            region_id,
            entity_id,
            operation,
            auth_ratio_text,
            true,
            logical_clock,
            timestamp,
            v_before,
            v_after,
            proof_text,
        ) != event_fields(
            eid,
            parent_hashes,
            region_id,
            entity_id,
            operation,
            auth_ratio_text,
            false,
            logical_clock,
            timestamp,
            v_before,
            v_after,
            proof_text,
        ),
{
    reveal_strlit("true");
    reveal_strlit("false");
    law_event_fields_layout(
        eid,
        parent_hashes,
        region_id,
        entity_id,
        operation,
        auth_ratio_text,
        true,
        logical_clock,
        timestamp,
        v_before,
        v_after,
        proof_text,
    );
    law_event_fields_layout(
        eid,
        parent_hashes,
        region_id,
        entity_id,
        operation,
        auth_ratio_text,
        false,
        logical_clock,
        timestamp,
        v_before,
        v_after,
        proof_text,
    );
    let f1 = event_fields(
        eid,
        parent_hashes,
        region_id,
        entity_id,
        operation,
        auth_ratio_text,
        true,
        logical_clock,
        timestamp,
        v_before,
        v_after,
        proof_text,
    );
    let f2 = event_fields(
        eid,
        parent_hashes,
        region_id,
        entity_id,
        operation,
        auth_ratio_text,
        false,
        logical_clock,
        timestamp,
        v_before,
        v_after,
        proof_text,
    );
    assert("true"@.len() == 4 && "false"@.len() == 5);
    assert(f1[5] != f2[5]);
}

/// An origin is accepted only when the whole expected prefix begins the
/// challenge id; with the required fields present, a challenge without it is
/// refused as an invalid origin for its prefix.
pub proof fn law_origin_needs_whole_prefix(
    req: OriginRequest,
    prefix: Seq<char>,
    allow_zero: bool,
    effort_shortfall: Option<String>,
    e: AuthxError,
)
    ensures
        origin_accepted(req, prefix, allow_zero, effort_shortfall is None) ==> prefix.len()
            <= req.challenge_id@.len() && forall|i: int|
            0 <= i < prefix.len() ==> #[trigger] req.challenge_id@[i] == prefix[i],
        !is_blank_spec(req.origin_id@) && !is_blank_spec(req.region_id@) && !is_blank_spec(
            req.entity_id@,
        ) && !is_blank_spec(req.owner_pk@) && !is_blank_spec(req.challenge_id@) && (
        prefix.len() > req.challenge_id@.len() || exists|i: int|
            0 <= i < prefix.len() && #[trigger] req.challenge_id@[i] != prefix[i]) && origin_refusal(
            e,
            req,
            prefix,
            allow_zero,
            effort_shortfall,
        ) ==> (e matches AuthxError::ErrInvalidOrigin(m) && m@ == prefix_message()),
{
}

/// A profile that spells a risk name with any of its letters in ASCII upper
/// case is in that name's class.
pub open spec fn spells_ignoring_case(p: Seq<char>, name: Seq<char>) -> bool {
    p.len() == name.len() && forall|i: int|
        0 <= i < p.len() ==> (#[trigger] p[i] == name[i] || ('a' <= name[i] && name[i] <= 'z'
            && (p[i] as u32) + 32 == name[i] as u32))
}

proof fn lemma_spells_lower(p: Seq<char>, name: Seq<char>)
    requires
        spells_ignoring_case(p, name),
        forall|i: int| 0 <= i < name.len() ==> 'a' <= #[trigger] name[i] && name[i] <= 'z',
    ensures
        crate::text::ascii_lower_eq(p, name),
{
    assert forall|i: int| 0 <= i < p.len() implies lower_code(#[trigger] p[i]) == name[i] as u32 by {
        assert('a' <= name[i] && name[i] <= 'z');
    }
}

/// The risk class ignores ASCII case: `low`, `medium`, `high` and
/// `critical`, in any mix of cases, are their classes.
pub proof fn law_risk_level_ignores_case(p: Seq<char>)
    ensures
        spells_ignoring_case(p, "low"@) ==> risk_level_of(p) == RiskLevel::Low,
        spells_ignoring_case(p, "medium"@) ==> risk_level_of(p) == RiskLevel::Medium,
        spells_ignoring_case(p, "high"@) ==> risk_level_of(p) == RiskLevel::High,
        spells_ignoring_case(p, "critical"@) ==> risk_level_of(p) == RiskLevel::Critical,
{
    reveal_strlit("low");
    reveal_strlit("medium");
    reveal_strlit("high");
    reveal_strlit("critical");
    lemma_risk_names_distinct(p);
    if spells_ignoring_case(p, "low"@) {
        lemma_spells_lower(p, "low"@);
    }
    if spells_ignoring_case(p, "medium"@) {
        lemma_spells_lower(p, "medium"@);
    }
    if spells_ignoring_case(p, "high"@) {
        lemma_spells_lower(p, "high"@);
    }
    if spells_ignoring_case(p, "critical"@) {
        lemma_spells_lower(p, "critical"@);
    }
}

/// Magnitude grading against ordered bounds: outside them is `Outside`;
/// inside them (or with no bounds) a positive magnitude is `Valid`, and a
/// zero magnitude is `Valid` only for the `Zero` type.
pub proof fn law_magnitude_grades(magnitude: u128, bounds: Option<(u128, u128)>, t: VectorType)
    ensures
        bounds matches Some((min, max)) && min <= max && (magnitude < min || magnitude > max)
            ==> grade_of(magnitude, bounds, t) == MagnitudeGrade::Outside,
        (bounds is None || (bounds matches Some((min, max)) && min <= magnitude <= max))
            && magnitude > 0 ==> grade_of(magnitude, bounds, t) == MagnitudeGrade::Valid,
        (bounds is None || (bounds matches Some((min, max)) && min <= magnitude <= max))
            && magnitude == 0 ==> grade_of(magnitude, bounds, t) == (if t == VectorType::Zero {
            MagnitudeGrade::Valid
        } else {
            MagnitudeGrade::UnexpectedZero
        }),
{
}

/// The number a sequence of decimal digits spells.
pub open spec fn digits_value(s: Seq<char>) -> int
    decreases s.len(),
{
    if s.len() == 0 {
        0
    } else {
        digits_value(s.drop_last()) * 10 + ((s.last() as int) - ('0' as int))
    }
}

/// The decimal rendering of `n` is made of digits, spells `n`, and has no
/// leading zero (other than `0` itself).
pub proof fn law_decimal_spells_number(n: nat)
    ensures
        decimal(n).len() > 0,
        forall|i: int| 0 <= i < decimal(n).len() ==> '0' <= #[trigger] decimal(n)[i] <= '9',
        digits_value(decimal(n)) == n,
        n > 0 ==> decimal(n)[0] != '0',
    decreases n,
{
    if n >= 10 {
        law_decimal_spells_number(n / 10);
        let d = decimal(n);
        assert(d.drop_last() =~= decimal(n / 10));
        assert forall|i: int| 0 <= i < d.len() implies '0' <= #[trigger] d[i] <= '9' by {
            if i < d.len() - 1 {
                assert(d[i] == decimal(n / 10)[i]);
            }
        }
        assert(d[0] == decimal(n / 10)[0]);
        let k = (n % 10) as int;
        assert(d.last() == hex_char(k));
        assert(hex_char(k) as int == ('0' as int) + k);
        assert(digits_value(d) == digits_value(d.drop_last()) * 10 + k);
        assert((n / 10) * 10 + n % 10 == n) by (nonlinear_arith);
        assert(digits_value(d.drop_last()) == n / 10);
        assert(digits_value(d) == n);
    } else {
        let d = decimal(n);
        assert(d.drop_last() =~= Seq::<char>::empty());
        assert(hex_char(n as int) as int == ('0' as int) + n);
        assert(digits_value(d.drop_last()) == 0);
        assert(d.last() == hex_char(n as int));
        assert(digits_value(d) == n);
    }
}

} // verus!
