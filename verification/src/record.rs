//! Deterministic record hashing: the stable hash, event hashes and
//! signature payloads.
use vstd::prelude::*;
use vstd::utf8::encode_utf8;
use vstd::wrapping::u64_specs;

use crate::text::{decimal, decimal_text, hex16, hex16_text, is_lower_hex, lemma_hex16_is_hex};
use crate::vector::VectorState;

verus! {

// ---------------------------------------------------------------------------
// The stable hash
// ---------------------------------------------------------------------------

/// The four lanes the hash starts from.
pub open spec fn hash_init() -> Seq<u64> {
    seq![0xcbf29ce484222325u64, 0x84222325cbf29ce4u64, 0x9e3779b185ebca87u64, 0x94d049bb133111ebu64]
}

/// Rotation of `x` left by `n` bits, `0 < n < 64` (what `u64::rotate_left` does).
pub open spec fn rotl(x: u64, n: u64) -> u64 {
    (x << n) | (x >> ((64 - n) as u64))
}

/// One byte folded into a lane.
pub open spec fn mix_byte(lane: u64, b: u8) -> u64 {
    rotl(u64_specs::wrapping_mul(lane ^ (b as u64), 0x100000001b3u64), 13) ^ 0x9e3779b97f4a7c15u64
}

/// The lanes after folding in the first `n` bytes of `part`; byte `i` goes to lane `i % 4`.
pub open spec fn absorb(st: Seq<u64>, part: Seq<u8>, n: nat) -> Seq<u64>
    decreases n,
{
    if n == 0 {
        st
    } else {
        let s = absorb(st, part, (n - 1) as nat);
        let l = ((n - 1) % 4) as int;
        s.update(l, mix_byte(s[l], part[n - 1]))
    }
}

/// The separation step applied to one lane after each part.
pub open spec fn separate_lane(x: u64) -> u64 {
    u64_specs::wrapping_add(rotl(x ^ 0xa5a5a5a5a5a5a5a5u64, 7), 0x517cc1b727220a95u64)
}

/// The separation step applied to all four lanes.
pub open spec fn separate(st: Seq<u64>) -> Seq<u64> {
    seq![separate_lane(st[0]), separate_lane(st[1]), separate_lane(st[2]), separate_lane(st[3])]
}

/// The lanes after hashing a sequence of parts.
pub open spec fn hash_lanes(parts: Seq<Seq<u8>>) -> Seq<u64>
    decreases parts.len(),
{
    if parts.len() == 0 {
        hash_init()
    } else {
        let p = parts.last();
        separate(absorb(hash_lanes(parts.drop_last()), p, p.len()))
    }
}

/// The stable hash of a sequence of byte strings: its four lanes, each as
/// sixteen lower-case hexadecimal digits.
pub open spec fn stable_hash(parts: Seq<Seq<u8>>) -> Seq<char> {
    let l = hash_lanes(parts);
    hex16(l[0]) + hex16(l[1]) + hex16(l[2]) + hex16(l[3])
}

/// The bytes of each part.
pub open spec fn byte_parts(parts: Seq<&[u8]>) -> Seq<Seq<u8>> {
    parts.map_values(|p: &[u8]| p@)
}

/// The stable hash of texts, taken over their UTF-8 bytes.
pub open spec fn text_hash(fields: Seq<Seq<char>>) -> Seq<char> {
    stable_hash(fields.map_values(|f: Seq<char>| encode_utf8(f)))
}

/// The views of a sequence of strings.
pub open spec fn string_views(s: Seq<String>) -> Seq<Seq<char>> {
    s.map_values(|x: String| x@)
}

/// Rotates `x` left by `n` bits.
fn rotate_left(x: u64, n: u64) -> (r: u64)
    requires
        0 < n < 64,
    ensures
        r == rotl(x, n),
{
    (x << n) | (x >> (64 - n))
}

/// Deterministic, self-contained hash of a sequence of byte strings, as 64
/// lower-case hexadecimal digits.
///
/// Each byte of a part is folded into one of four 64-bit lanes (byte `i` into
/// lane `i % 4`); after each part all lanes go through a separation step, so
/// that the boundaries between parts count.
pub fn stable_hash_hex(parts: &[&[u8]]) -> (r: String)
    ensures
        r@ == stable_hash(byte_parts(parts@)),
        r@.len() == 64,
        forall|i: int| 0 <= i < 64 ==> is_lower_hex(#[trigger] r@[i]),
{
    let mut st: Vec<u64> = Vec::new();
    st.push(0xcbf29ce484222325u64);
    st.push(0x84222325cbf29ce4u64);
    st.push(0x9e3779b185ebca87u64);
    st.push(0x94d049bb133111ebu64);
    let ghost all = byte_parts(parts@);
    proof {
        assert(st@ =~= hash_init());
        assert(all.take(0) =~= Seq::<Seq<u8>>::empty());
    }
    let mut k: usize = 0;
    while k < parts.len()
        invariant
            all == byte_parts(parts@),
            k <= parts@.len(),
            st@ == hash_lanes(all.take(k as int)),
            st@.len() == 4,
        decreases parts@.len() - k,
    {
        let part = parts[k];
        let ghost base = st@;
        proof {
            assert(all[k as int] == part@);
        }
        let mut i: usize = 0;
        while i < part.len()
            invariant
                i <= part@.len(),
                st@.len() == 4,
                st@ == absorb(base, part@, i as nat),
            decreases part@.len() - i,
        {
            let lane = i % 4;
            let mixed = rotate_left((st[lane] ^ (part[i] as u64)).wrapping_mul(0x100000001b3u64), 13)
                ^ 0x9e3779b97f4a7c15u64;
            st.set(lane, mixed);
            i = i + 1;
        }
        let mut l: usize = 0;
        let ghost absorbed = st@;
        while l < 4
            invariant
                l <= 4,
                st@.len() == 4,
                absorbed.len() == 4,
                forall|j: int| 0 <= j < l ==> st@[j] == separate_lane(absorbed[j]),
                forall|j: int| l <= j < 4 ==> st@[j] == absorbed[j],
            decreases 4 - l,
        {
            let x = st[l];
            let y = rotate_left(x ^ 0xa5a5a5a5a5a5a5a5u64, 7).wrapping_add(0x517cc1b727220a95u64);
            st.set(l, y);
            l = l + 1;
        }
        proof {
            let t = all.take(k + 1);
            assert(t.drop_last() =~= all.take(k as int));
            assert(t.last() == part@);
            assert(st@ =~= separate(absorbed));
        }
        k = k + 1;
    }
    proof {
        assert(all.take(k as int) =~= all);
    }
    let mut out = hex16_text(st[0]);
    let h1 = hex16_text(st[1]);
    let h2 = hex16_text(st[2]);
    let h3 = hex16_text(st[3]);
    out.append(h1.as_str());
    out.append(h2.as_str());
    out.append(h3.as_str());
    proof {
        lemma_hex16_is_hex(st@[0]);
        lemma_hex16_is_hex(st@[1]);
        lemma_hex16_is_hex(st@[2]);
        lemma_hex16_is_hex(st@[3]);
        assert forall|i: int| 0 <= i < 64 implies is_lower_hex(#[trigger] out@[i]) by {
            if i < 16 {
                assert(out@[i] == hex16(st@[0])[i]);
            } else if i < 32 {
                assert(out@[i] == hex16(st@[1])[i - 16]);
            } else if i < 48 {
                assert(out@[i] == hex16(st@[2])[i - 32]);
            } else {
                assert(out@[i] == hex16(st@[3])[i - 48]);
            }
        }
    }
    out
}

/// The stable hash of a list of text fields, over their UTF-8 bytes.
pub fn hash_record_fields(fields: &[String]) -> (r: String)
    ensures
        r@ == text_hash(string_views(fields@)),
        r@.len() == 64,
{
    let mut refs: Vec<&[u8]> = Vec::new();
    let mut i: usize = 0;
    while i < fields.len()
        invariant
            i <= fields@.len(),
            refs@.len() == i,
            forall|j: int| 0 <= j < i ==> (#[trigger] refs@[j])@ == encode_utf8(fields@[j]@),
        decreases fields@.len() - i,
    {
        refs.push(fields[i].as_str().as_bytes());
        i = i + 1;
    }
    let r = stable_hash_hex(refs.as_slice());
    proof {
        assert(byte_parts(refs@) =~= string_views(fields@).map_values(
            |f: Seq<char>| encode_utf8(f),
        ));
    }
    r
}

// ---------------------------------------------------------------------------
// Signature payloads and event hashes
// ---------------------------------------------------------------------------

/// The signature payload: the five fields joined by `:`.
pub open spec fn signature_payload(
    eid: Seq<char>,
    operation: Seq<char>,
    entity_id: Seq<char>,
    actor_pk: Seq<char>,
    event_hash: Seq<char>,
) -> Seq<char> {
    eid + ":"@ + operation + ":"@ + entity_id + ":"@ + actor_pk + ":"@ + event_hash
}

/// Builds the payload that an actor signs for an event.
pub fn vector_signature_payload(
    eid: &str,
    operation: &str,
    entity_id: &str,
    actor_pk: &str,
    event_hash: &str,
) -> (r: String)
    ensures
        r@ == signature_payload(eid@, operation@, entity_id@, actor_pk@, event_hash@),
{
    let mut s = eid.to_owned();
    s.append(":");
    s.append(operation);
    s.append(":");
    s.append(entity_id);
    s.append(":");
    s.append(actor_pk);
    s.append(":");
    s.append(event_hash);
    s
}

/// The `Debug` rendering of a text: the text in double quotes, with quotes,
/// backslashes and non-printable characters escaped.
pub uninterp spec fn debug_quoted(s: Seq<char>) -> Seq<char>;

/// A character that `Debug` renders as itself: printable ASCII other than
/// the double quote and the backslash.
pub open spec fn debug_plain(c: char) -> bool {
    ' ' <= c && c <= '~' && c != '"' && c != '\\'
}

/// Renders a text as `format!("{:?}", s)` does.
///
/// Calls `<str as Debug>::fmt` through `format!`. The contract names the
/// result and states, as the documentation of `str`'s `Debug` and of
/// `char::escape_debug` gives it, that a text of plain printable ASCII is
/// rendered as itself in double quotes; the escapes of other characters
/// (which go by Unicode tables) are left unstated.
#[verifier::external_body]
fn debug_text(s: &str) -> (r: String)
    ensures
        r@ == debug_quoted(s@),
        (forall|i: int| 0 <= i < s@.len() ==> debug_plain(#[trigger] s@[i])) ==> r@ == seq!['"']
            + s@ + seq!['"'],
{
    format!("{:?}", s)
}

/// One component rendered as `Debug` renders a map entry.
pub open spec fn entry_debug(e: (String, u128)) -> Seq<char> {
    debug_quoted(e.0@) + ": "@ + decimal(e.1 as nat)
}

/// The entries rendered one after another, separated by `, `.
pub open spec fn entries_debug(s: Seq<(String, u128)>) -> Seq<char>
    decreases s.len(),
{
    if s.len() == 0 {
        Seq::empty()
    } else if s.len() == 1 {
        entry_debug(s[0])
    } else {
        entries_debug(s.drop_last()) + ", "@ + entry_debug(s.last())
    }
}

/// The `Debug` rendering of a component map: `{"alpha": 60, "beta": 40}`.
pub open spec fn components_debug(s: Seq<(String, u128)>) -> Seq<char> {
    "{"@ + entries_debug(s) + "}"@
}

/// Renders the components of a vector as `Debug` renders its map.
fn components_debug_text(v: &VectorState) -> (r: String)
    ensures
        r@ == components_debug(v.entries()),
{
    let comps = v.components();
    let mut body = String::new();
    let mut i: usize = 0;
    proof {
        assert(comps@.take(0) =~= Seq::<(String, u128)>::empty());
    }
    while i < comps.len()
        invariant
            i <= comps@.len(),
            body@ == entries_debug(comps@.take(i as int)),
        decreases comps@.len() - i,
    {
        if i > 0 {
            body.append(", ");
        }
        let key = debug_text(comps[i].0.as_str());
        body.append(key.as_str());
        body.append(": ");
        let amount = decimal_text(comps[i].1);
        body.append(amount.as_str());
        proof {
            let t = comps@.take(i + 1);
            assert(t.drop_last() =~= comps@.take(i as int));
            assert(t.last() == comps@[i as int]);
            if i == 0 {
                assert(t.len() == 1);
                assert(t[0] == comps@[0]);
            }
        }
        i = i + 1;
    }
    proof {
        assert(comps@.take(i as int) =~= comps@);
    }
    let mut r = "{".to_owned();
    r.append(body.as_str());
    r.append("}");
    r
}

/// The text of a boolean, as `to_string` gives it.
pub open spec fn bool_text(b: bool) -> Seq<char> {
    if b {
        "true"@
    } else {
        "false"@
    }
}

/// The fields hashed into an event hash, in order: identifiers, operation,
/// the score text, the certification flag, clock and timestamp in decimal,
/// both vector states, the proof, then the parent hashes.
pub open spec fn event_fields(
    eid: Seq<char>,
    parent_hashes: Seq<String>,
    region_id: Seq<char>,
    entity_id: Seq<char>,
    operation: Seq<char>,
    auth_ratio_text: Seq<char>,
    certified: bool,
    logical_clock: u64,
    timestamp: u64,
    v_before: Seq<(String, u128)>,
    v_after: Seq<(String, u128)>,
    proof_text: Seq<char>,
) -> Seq<Seq<char>> {
    seq![
        eid,
        region_id,
        entity_id,
        operation,
        auth_ratio_text,
        bool_text(certified),
        decimal(logical_clock as nat),
        decimal(timestamp as nat),
        "before="@ + components_debug(v_before),
        "after="@ + components_debug(v_after),
        proof_text,
    ] + string_views(parent_hashes)
}

/// The hash of an event.
///
/// `auth_ratio_text` is the AuthRatio rendered with twelve decimals
/// (`format!("{:.12}", score)`), which the scoring layer provides.
pub fn vector_event_hash(
    eid: &str,
    parent_hashes: &[String],
    region_id: &str,
    entity_id: &str,
    operation: &str,
    auth_ratio_text: &str,
    certified: bool,
    logical_clock: u64,
    timestamp: u64,
    v_before: &VectorState,
    v_after: &VectorState,
    proof_text: &str,
) -> (r: String)
    ensures
        r@ == text_hash(
            event_fields(
                eid@,
                parent_hashes@,
                region_id@,
                entity_id@,
                operation@,
                auth_ratio_text@,
                certified,
                logical_clock,
                timestamp,
                v_before.entries(),
                v_after.entries(),
                proof_text@,
            ),
        ),
        r@.len() == 64,
{
    let mut parts: Vec<String> = Vec::new();
    parts.push(eid.to_owned());
    parts.push(region_id.to_owned());
    parts.push(entity_id.to_owned());
    parts.push(operation.to_owned());
    parts.push(auth_ratio_text.to_owned());
    parts.push(if certified { "true".to_owned() } else { "false".to_owned() });
    parts.push(decimal_text(logical_clock as u128));
    parts.push(decimal_text(timestamp as u128));
    let mut before = "before=".to_owned();
    let before_map = components_debug_text(v_before);
    before.append(before_map.as_str());
    parts.push(before);
    let mut after = "after=".to_owned();
    let after_map = components_debug_text(v_after);
    after.append(after_map.as_str());
    parts.push(after);
    parts.push(proof_text.to_owned());
    let ghost head = parts@;
    let mut i: usize = 0;
    while i < parent_hashes.len()
        invariant
            i <= parent_hashes@.len(),
            parts@ == head + parent_hashes@.take(i as int),
        decreases parent_hashes@.len() - i,
    {
        parts.push(parent_hashes[i].clone());
        proof {
            assert(parts@ =~= head + parent_hashes@.take(i + 1));
        }
        i = i + 1;
    }
    proof {
        assert(parent_hashes@.take(i as int) =~= parent_hashes@);
        assert(string_views(parts@) =~= event_fields(
            eid@,
            parent_hashes@,
            region_id@,
            entity_id@,
            operation@,
            auth_ratio_text@,
            certified,
            logical_clock,
            timestamp,
            v_before.entries(),
            v_after.entries(),
            proof_text@,
        ));
    }
    hash_record_fields(parts.as_slice())
}

} // verus!
