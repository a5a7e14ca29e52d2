//! The masks of a preset, as far as a rendering without a display reads them.

use vstd::prelude::*;
use vstd::string::StringExecFns;

use crate::numbers::decimal;
use crate::text::same_text;

verus! {

/// One part of a mask.
pub struct SubMask {
    /// What the part selects by: `"brush"`, `"color"`, `"luminance"` and so on.
    pub mask_type: String,
}

/// A mask of a preset.
pub struct MaskDefinition {
    pub sub_masks: Vec<SubMask>,
}

/// Whether a part of this type can only be drawn from the full-size source.
pub open spec fn needs_source(mask_type: Seq<char>) -> bool {
    mask_type == "color"@ || mask_type == "luminance"@
}

/// How many of these parts need the full-size source.
pub open spec fn skipped_parts(parts: Seq<SubMask>) -> nat {
    parts.filter(|part: SubMask| needs_source(part.mask_type@)).len()
}

/// How many parts of all these masks need the full-size source.
pub open spec fn skipped_total(masks: Seq<MaskDefinition>) -> nat
    decreases masks.len(),
{
    if masks.len() == 0 {
        0
    } else {
        skipped_total(masks.drop_last()) + skipped_parts(masks.last().sub_masks@)
    }
}

/// What is said about `count` parts that are left out, where there are any.
pub open spec fn skipped_note_text(count: nat) -> Option<Seq<char>> {
    if count > 0 {
        Some(
            "Note: "@ + crate::numbers::decimal_digits(count)
                + " color/luminance mask(s) skipped (need full-res source)"@,
        )
    } else {
        None
    }
}

/// Counts the parts of one mask that need the full-size source.
fn count_parts(parts: &Vec<SubMask>) -> (count: usize)
    ensures
        count == skipped_parts(parts@),
        count <= parts.len(),
{
    let mut count: usize = 0;
    let mut at: usize = 0;
    let ghost chosen = |part: SubMask| needs_source(part.mask_type@);
    proof {
        reveal(Seq::filter);
        assert(parts@.take(0) =~= Seq::<SubMask>::empty());
    }
    while at < parts.len()
        invariant
            at <= parts.len(),
            count <= at,
            chosen == (|part: SubMask| needs_source(part.mask_type@)),
            count == parts@.take(at as int).filter(chosen).len(),
        decreases parts.len() - at,
    {
        let mask_type = parts[at].mask_type.as_str();
        proof {
            reveal(Seq::filter);
            assert(parts@.take(at + 1).drop_last() =~= parts@.take(at as int));
        }
        if same_text(mask_type, "color") || same_text(mask_type, "luminance") {
            count = count + 1;
        }
        at = at + 1;
    }
    assert(parts@.take(at as int) =~= parts@);
    count
}

/// Counts the parts, over all masks, that need the full-size source.
pub fn count_skipped(masks: &Vec<MaskDefinition>) -> (count: u128)
    ensures
        count == skipped_total(masks@),
{
    let mut count: u128 = 0;
    let mut at: usize = 0;
    assert(masks@.take(0) =~= Seq::<MaskDefinition>::empty());
    while at < masks.len()
        invariant
            at <= masks.len(),
            count == skipped_total(masks@.take(at as int)),
            count <= at * usize::MAX,
        decreases masks.len() - at,
    {
        let here: usize = count_parts(&masks[at].sub_masks);
        proof {
            assert(masks@.take(at + 1).drop_last() =~= masks@.take(at as int));
            assert((at + 1) * usize::MAX == at * usize::MAX + usize::MAX) by (nonlinear_arith);
            assert((at + 1) * usize::MAX <= u128::MAX) by (nonlinear_arith)
                requires
                    at + 1 <= usize::MAX,
                    usize::MAX <= 0xffff_ffff_ffff_ffff,
            ;
        }
        count = count + here as u128;
        at = at + 1;
    }
    assert(masks@.take(at as int) =~= masks@);
    count
}

/// The note to print about parts that are left out of the rendering.
pub fn skipped_note(count: u128) -> (note: Option<String>)
    ensures
        match note {
            Some(text) => skipped_note_text(count as nat) == Some(text@),
            None => skipped_note_text(count as nat) is None,
        },
{
    if count > 0 {
        let mut text = "Note: ".to_string();
        text.append(decimal(count).as_str());
        text.append(" color/luminance mask(s) skipped (need full-res source)");
        Some(text)
    } else {
        None
    }
}

/// A mask list says nothing about skipped parts exactly when no part of it needs
/// the full-size source.
pub proof fn law_note_only_for_source_masks(masks: Seq<MaskDefinition>)
    ensures
        skipped_note_text(skipped_total(masks)) is None <==> forall|i: int, j: int|
            0 <= i < masks.len() && 0 <= j < masks[i].sub_masks@.len() ==> !needs_source(
                #[trigger] masks[i].sub_masks@[j].mask_type@,
            ),
    decreases masks.len(),
{
    if masks.len() > 0 {
        let rest = masks.drop_last();
        let last = masks.last().sub_masks@;
        law_note_only_for_source_masks(rest);
        lemma_no_skipped_parts(last);
        if skipped_total(masks) == 0 {
            assert forall|i: int, j: int|
                0 <= i < masks.len() && 0 <= j < masks[i].sub_masks@.len() implies !needs_source(
                #[trigger] masks[i].sub_masks@[j].mask_type@,
            ) by {
                if i < rest.len() {
                    assert(rest[i].sub_masks@[j] == masks[i].sub_masks@[j]);
                } else {
                    assert(last[j] == masks[i].sub_masks@[j]);
                }
            }
        } else {
            if skipped_parts(last) > 0 {
                let j = choose|j: int| 0 <= j < last.len() && needs_source(last[j].mask_type@);
                assert(needs_source(masks[masks.len() - 1].sub_masks@[j].mask_type@));
            } else {
                let (i, j) = choose|i: int, j: int|
                    0 <= i < rest.len() && 0 <= j < rest[i].sub_masks@.len() && needs_source(
                        #[trigger] rest[i].sub_masks@[j].mask_type@,
                    );
                assert(needs_source(masks[i].sub_masks@[j].mask_type@));
            }
        }
    }
}

/// None of the parts is counted exactly when none needs the full-size source.
proof fn lemma_no_skipped_parts(parts: Seq<SubMask>)
    ensures
        skipped_parts(parts) == 0 <==> forall|j: int|
            0 <= j < parts.len() ==> !needs_source(#[trigger] parts[j].mask_type@),
    decreases parts.len(),
{
    reveal(Seq::filter);
    if parts.len() > 0 {
        let rest = parts.drop_last();
        lemma_no_skipped_parts(rest);
        if skipped_parts(parts) == 0 {
            assert forall|j: int| 0 <= j < parts.len() implies !needs_source(
                #[trigger] parts[j].mask_type@,
            ) by {
                if j < rest.len() {
                    assert(rest[j] == parts[j]);
                }
            }
        } else if !needs_source(parts.last().mask_type@) {
            let j = choose|j: int|
                0 <= j < rest.len() && needs_source(#[trigger] rest[j].mask_type@);
            assert(needs_source(parts[j].mask_type@));
        } else {
            assert(needs_source(parts[parts.len() - 1].mask_type@));
        }
    }
}

/// One more part counts if, and only if, it selects by colour or by luminance.
pub proof fn law_one_more_part(parts: Seq<SubMask>, part: SubMask)
    ensures
        skipped_parts(Seq::<SubMask>::empty()) == 0,
        part.mask_type@ == "color"@ || part.mask_type@ == "luminance"@ ==> skipped_parts(
            parts.push(part),
        ) == skipped_parts(parts) + 1,
        part.mask_type@ != "color"@ && part.mask_type@ != "luminance"@ ==> skipped_parts(
            parts.push(part),
        ) == skipped_parts(parts),
{
    reveal(Seq::filter);
    assert(parts.push(part).drop_last() =~= parts);
}

/// One more mask counts with all of its parts.
pub proof fn law_one_more_mask(masks: Seq<MaskDefinition>, mask: MaskDefinition)
    ensures
        skipped_total(Seq::<MaskDefinition>::empty()) == 0,
        skipped_total(masks.push(mask)) == skipped_total(masks) + skipped_parts(mask.sub_masks@),
{
    assert(masks.push(mask).drop_last() =~= masks);
}

/// How the parts are spread over masks does not matter to their number.
pub proof fn law_masks_count_together(a: Seq<MaskDefinition>, b: Seq<MaskDefinition>)
    ensures
        skipped_total(a + b) == skipped_total(a) + skipped_total(b),
    decreases b.len(),
{
    if b.len() == 0 {
        assert(a + b =~= a);
    } else {
        law_masks_count_together(a, b.drop_last());
        assert((a + b).drop_last() =~= a + b.drop_last());
    }
}

/// What is said of parts that were skipped: their number, where there are any.
pub proof fn law_note_tells_the_number(count: nat)
    ensures
        count == 0 ==> skipped_note_text(count) is None,
        count > 0 ==> skipped_note_text(count) == Some(
            "Note: "@ + crate::numbers::decimal_digits(count)
                + " color/luminance mask(s) skipped (need full-res source)"@,
        ),
{
}

} // verus!
