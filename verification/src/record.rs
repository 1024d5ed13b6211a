//! What the manifest says of an image and of a group of images.

use vstd::prelude::*;
use crate::fraction::Fraction;

verus! {

/// One processed panorama.
#[derive(Clone, Debug, PartialEq, Eq)]
pub struct PImage {
    /// Name of the image: that of its file, without the extension.
    pub imagename: String,
    /// Longitude, latitude and altitude, in this order.
    pub lonlat: Option<Vec<Fraction>>,
    /// A height derived for the image; never set here.
    pub height: Option<Fraction>,
    /// An offset to the longitude; never set here.
    pub longitudeoffset: Option<Fraction>,
    /// Whether the image was cut into tiles.
    pub usetile: bool,
}

/// One folder of panoramas.
#[derive(Clone, Debug, PartialEq, Eq)]
pub struct PGroup {
    /// Name of the folder.
    pub name: String,
    /// The images of the folder that could be processed.
    pub images: Vec<PImage>,
}

impl PImage {
    /// The record of an image from its name, its location and whether it
    /// was cut into tiles.
    pub fn new(imagename: &str, lonlat: Vec<Fraction>, usetile: bool) -> (record: PImage)
        ensures
            record.imagename@ == imagename@,
            record.lonlat == Some(lonlat),
            record.height is None,
            record.longitudeoffset is None,
            record.usetile == usetile,
    {
        PImage {
            imagename: String::from_str(imagename),
            lonlat: Some(lonlat),
            height: None,
            longitudeoffset: None,
            usetile,
        }
    }
}

/// The records of the images that were processed, in the order of
/// `outcomes`: an image that could not be processed, whose outcome is
/// `None`, is left out.
pub open spec fn processed(outcomes: Seq<Option<PImage>>) -> Seq<PImage>
    decreases outcomes.len(),
{
    if outcomes.len() == 0 {
        Seq::empty()
    } else {
        match outcomes.last() {
            Some(record) => processed(outcomes.drop_last()).push(record),
            None => processed(outcomes.drop_last()),
        }
    }
}

/// Nothing is added to the records: each record that `processed` keeps is
/// one of the outcomes, and there are no more records than outcomes.
pub proof fn lemma_processed(outcomes: Seq<Option<PImage>>)
    ensures
        processed(outcomes).len() <= outcomes.len(),
        forall|i: int|
            0 <= i < processed(outcomes).len() ==> outcomes.contains(
                Some(#[trigger] processed(outcomes)[i]),
            ),
        (forall|i: int| 0 <= i < outcomes.len() ==> (#[trigger] outcomes[i]) is Some)
            ==> processed(outcomes).len() == outcomes.len(),
    decreases outcomes.len(),
{
    if outcomes.len() > 0 {
        let front = outcomes.drop_last();
        lemma_processed(front);
        assert forall|i: int| 0 <= i < processed(outcomes).len() implies outcomes.contains(
            Some(#[trigger] processed(outcomes)[i]),
        ) by {
            if i < processed(front).len() {
                let j = choose|j: int| 0 <= j < front.len() && front[j] == Some(processed(front)[i]);
                assert(outcomes[j] == front[j]);
            } else {
                assert(outcomes[outcomes.len() - 1] == outcomes.last());
            }
        }
        if forall|i: int| 0 <= i < outcomes.len() ==> (#[trigger] outcomes[i]) is Some {
            assert forall|i: int| 0 <= i < front.len() implies (#[trigger] front[i]) is Some by {
                assert(front[i] == outcomes[i]);
            }
        }
    }
}

/// Whether no two of the outcomes that are records have the same name.
pub open spec fn outcomes_distinct(outcomes: Seq<Option<PImage>>) -> bool {
    forall|i: int, j: int|
        0 <= i < j < outcomes.len() && outcomes[i] is Some && outcomes[j] is Some
            ==> outcomes[i]->Some_0.imagename@ != outcomes[j]->Some_0.imagename@
}

/// Whether no two of the records have the same name.
pub open spec fn names_distinct(images: Seq<PImage>) -> bool {
    forall|i: int, j: int|
        0 <= i < j < images.len() ==> images[i].imagename@ != images[j].imagename@
}

/// Images with different names keep different names in their group.
pub proof fn lemma_processed_distinct(outcomes: Seq<Option<PImage>>)
    requires
        outcomes_distinct(outcomes),
    ensures
        names_distinct(processed(outcomes)),
    decreases outcomes.len(),
{
    if outcomes.len() > 0 {
        let front = outcomes.drop_last();
        assert(outcomes_distinct(front)) by {
            assert forall|i: int, j: int|
                0 <= i < j < front.len() && front[i] is Some && front[j] is Some implies front[i]->Some_0
                    .imagename@ != front[j]->Some_0.imagename@ by {
                assert(front[i] == outcomes[i] && front[j] == outcomes[j]);
            }
        }
        lemma_processed_distinct(front);
        lemma_processed(front);
        let kept = processed(front);
        if let Some(record) = outcomes.last() {
            assert forall|i: int, j: int| 0 <= i < j < processed(outcomes).len() implies processed(
                outcomes,
            )[i].imagename@ != processed(outcomes)[j].imagename@ by {
                if j == kept.len() {
                    let k = choose|k: int| 0 <= k < front.len() && front[k] == Some(kept[i]);
                    assert(outcomes[k] == front[k]);
                    assert(outcomes[outcomes.len() - 1] == Some(record));
                }
            }
        }
    }
}

} // verus!
