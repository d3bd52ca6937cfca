//! The stranger's field-guide entry: class, temperament and measurements.
use vstd::prelude::*;
use crate::random::{roll, roll_i32, thread_rng};

verus! {

/// The classes a stranger may belong to.
pub open spec fn class_options() -> Seq<&'static str> {
    seq![
        "companion", "competitor", "conscriptor", "curio", "defective", "derilect",
        "derivative", "erratic", "falsifier", "fluid", "imitator", "manual", "messenger",
        "neoplastic", "nullifier", "objective", "occupant", "operative", "predator",
        "primitive", "radial", "regulator", "saboteur", "slanderer", "stabilizer",
        "structural", "substantive", "suitor", "supervisor", "transient", "widower",
    ]
}

/// The four temperaments.
pub open spec fn disposition_options() -> Seq<&'static str> {
    seq!["choleric", "melancholic", "sanguine", "phleghmatic"]
}

/// The kinds of eyesight.
pub open spec fn vision_options() -> Seq<&'static str> {
    seq!["far", "near", "near-far", "blind"]
}

/// The language families.
pub open spec fn language_family_options() -> Seq<&'static str> {
    seq![
        "complex", "inarticulate", "imitative", "inhibited", "predicative", "inert", "wild",
        "reactive", "resonant", "mute", "true mute",
    ]
}

/// `s` is one of `options`.
pub open spec fn one_of(s: Seq<char>, options: Seq<&'static str>) -> bool {
    exists|i: int| 0 <= i < options.len() && s == #[trigger] options[i]@
}

/// A stranger's entry. Measurements are kept exactly, as whole tenths (or
/// hundredths) of their unit.
pub struct Metadata {
    pub class_t: String,
    pub disposition: String,
    /// Height, in tenths.
    pub height_tenths: i32,
    /// Length, in tenths.
    pub length_tenths: i32,
    /// Weight, in tenths.
    pub weight_tenths: i32,
    pub size_variance: i32,
    pub iq: i32,
    /// Core temperature, in tenths of a degree.
    pub core_temp_tenths: i32,
    pub stability: i32,
    pub prevalence: i32,
    pub constancy: i32,
    /// Longevity, in hundredths.
    pub longevity_hundredths: i32,
    pub no_appearing: i32,
    pub vision: String,
    pub language_family: String,
}

/// The entries `Metadata::new` can draw.
pub open spec fn possible_metadata(m: Metadata) -> bool {
    &&& one_of(m.class_t@, class_options())
    &&& one_of(m.disposition@, disposition_options())
    &&& one_of(m.vision@, vision_options())
    &&& one_of(m.language_family@, language_family_options())
    &&& 1 <= m.height_tenths < 1000
    &&& 1 <= m.length_tenths < 3000
    &&& 1 <= m.weight_tenths < 10000
    &&& 0 <= m.size_variance < 100
    &&& 0 <= m.iq < 1000000
    &&& -2000 <= m.core_temp_tenths < 10000
    &&& 1 <= m.stability < 100
    &&& 1 <= m.prevalence < 100
    &&& 1 <= m.constancy < 100
    &&& ((m.longevity_hundredths % 10 == 0 && 10 <= m.longevity_hundredths < 10000) || 10
        <= m.longevity_hundredths < 200)
    &&& 1 <= m.no_appearing < 12
}

/// The dice `Metadata::new` rolls, in the order it rolls them. Of each pair of
/// a larger and a smaller scale, only the one its scale die picks is rolled;
/// what the other holds is not read.
#[derive(Clone, Copy, Debug)]
pub struct MetaDraws {
    /// Index into `class_options`.
    pub class: usize,
    /// Index into `disposition_options`.
    pub disposition: usize,
    /// One in three: 0 picks the larger scale.
    pub height_scale: usize,
    pub height_big: i32,
    pub height_small: i32,
    /// One in three: 0 picks the larger scale.
    pub length_scale: usize,
    pub length_big: i32,
    pub length_small: i32,
    pub weight: i32,
    pub size_variance: i32,
    /// One in ten: 0 picks the larger scale.
    pub iq_scale: usize,
    pub iq_big: i32,
    pub iq_small: i32,
    pub core_temp: i32,
    pub stability: i32,
    pub prevalence: i32,
    pub constancy: i32,
    /// One in three: 0 picks the larger scale, counted in tenths.
    pub longevity_scale: usize,
    pub longevity_big: i32,
    pub longevity_small: i32,
    pub no_appearing: i32,
    /// Index into `vision_options`.
    pub vision: usize,
    /// Index into `language_family_options`.
    pub language_family: usize,
}

/// `big` when the scale die came up 0, else `small`.
pub open spec fn scaled(scale: usize, big: int, small: int) -> int {
    if scale == 0 {
        big
    } else {
        small
    }
}

/// The options can be indexed, and a longevity in tenths can be counted in
/// hundredths.
pub open spec fn meta_draws_fit(d: MetaDraws) -> bool {
    &&& d.class < class_options().len()
    &&& d.disposition < disposition_options().len()
    &&& d.vision < vision_options().len()
    &&& d.language_family < language_family_options().len()
    &&& d.longevity_scale == 0 ==> i32::MIN <= 10 * d.longevity_big <= i32::MAX
}

/// `m` is the entry the dice `d` give: the options they index, and each
/// measurement as drawn, its scale die picking between the larger and the
/// smaller draw. A longevity on the larger scale is drawn in tenths and kept
/// in hundredths.
pub open spec fn metadata_matches(m: Metadata, d: MetaDraws) -> bool {
    &&& m.class_t@ == class_options()[d.class as int]@
    &&& m.disposition@ == disposition_options()[d.disposition as int]@
    &&& m.height_tenths == scaled(d.height_scale, d.height_big as int, d.height_small as int)
    &&& m.length_tenths == scaled(d.length_scale, d.length_big as int, d.length_small as int)
    &&& m.weight_tenths == d.weight
    &&& m.size_variance == d.size_variance
    &&& m.iq == scaled(d.iq_scale, d.iq_big as int, d.iq_small as int)
    &&& m.core_temp_tenths == d.core_temp
    &&& m.stability == d.stability
    &&& m.prevalence == d.prevalence
    &&& m.constancy == d.constancy
    &&& m.longevity_hundredths == scaled(
        d.longevity_scale,
        10 * d.longevity_big,
        d.longevity_small as int,
    )
    &&& m.no_appearing == d.no_appearing
    &&& m.vision@ == vision_options()[d.vision as int]@
    &&& m.language_family@ == language_family_options()[d.language_family as int]@
}

/// The dice hold values `Metadata::new` can roll, each from its range.
pub open spec fn possible_meta_draws(d: MetaDraws) -> bool {
    &&& d.class < class_options().len()
    &&& d.disposition < disposition_options().len()
    &&& d.height_scale < 3
    &&& (d.height_scale == 0 ==> 1 <= d.height_big < 1000)
    &&& (d.height_scale != 0 ==> 1 <= d.height_small < 100)
    &&& d.length_scale < 3
    &&& (d.length_scale == 0 ==> 1 <= d.length_big < 3000)
    &&& (d.length_scale != 0 ==> 1 <= d.length_small < 300)
    &&& 1 <= d.weight < 10000
    &&& 0 <= d.size_variance < 100
    &&& d.iq_scale < 10
    &&& (d.iq_scale == 0 ==> 0 <= d.iq_big < 1000000)
    &&& (d.iq_scale != 0 ==> 0 <= d.iq_small < 150)
    &&& -2000 <= d.core_temp < 10000
    &&& 1 <= d.stability < 100
    &&& 1 <= d.prevalence < 100
    &&& 1 <= d.constancy < 100
    &&& d.longevity_scale < 3
    &&& (d.longevity_scale == 0 ==> 1 <= d.longevity_big < 1000)
    &&& (d.longevity_scale != 0 ==> 10 <= d.longevity_small < 200)
    &&& 1 <= d.no_appearing < 12
    &&& d.vision < vision_options().len()
    &&& d.language_family < language_family_options().len()
}

/// Dice that `Metadata::new` can roll give an entry it can draw.
pub proof fn lemma_possible_meta_draws(m: Metadata, d: MetaDraws)
    requires
        possible_meta_draws(d),
        metadata_matches(m, d),
    ensures
        meta_draws_fit(d),
        possible_metadata(m),
{
    assert(m.class_t@ == class_options()[d.class as int]@);
    assert(m.disposition@ == disposition_options()[d.disposition as int]@);
    assert(m.vision@ == vision_options()[d.vision as int]@);
    assert(m.language_family@ == language_family_options()[d.language_family as int]@);
}

/// A copy of option `i` of `options`.
fn pick(options: &[&'static str], i: usize) -> (s: String)
    requires
        i < options@.len(),
    ensures
        s@ == options@[i as int]@,
{
    String::from_str(options[i])
}

impl Metadata {
    /// The entry the dice `d` give (see `metadata_matches`).
    pub fn from_draws(d: MetaDraws) -> (m: Metadata)
        requires
            meta_draws_fit(d),
        ensures
            metadata_matches(m, d),
    {
        let class_opts = [
            "companion", "competitor", "conscriptor", "curio", "defective", "derilect",
            "derivative", "erratic", "falsifier", "fluid", "imitator", "manual", "messenger",
            "neoplastic", "nullifier", "objective", "occupant", "operative", "predator",
            "primitive", "radial", "regulator", "saboteur", "slanderer", "stabilizer",
            "structural", "substantive", "suitor", "supervisor", "transient", "widower",
        ];
        let disposition_opts = ["choleric", "melancholic", "sanguine", "phleghmatic"];
        let vision_opts = ["far", "near", "near-far", "blind"];
        let language_family_opts = [
            "complex", "inarticulate", "imitative", "inhibited", "predicative", "inert", "wild",
            "reactive", "resonant", "mute", "true mute",
        ];
        assert(class_opts@ == class_options());
        assert(disposition_opts@ == disposition_options());
        assert(vision_opts@ == vision_options());
        assert(language_family_opts@ == language_family_options());
        let class_t = pick(&class_opts, d.class);
        let disposition = pick(&disposition_opts, d.disposition);
        let height_tenths = if d.height_scale == 0 {
            d.height_big
        } else {
            d.height_small
        };
        let length_tenths = if d.length_scale == 0 {
            d.length_big
        } else {
            d.length_small
        };
        let iq = if d.iq_scale == 0 {
            d.iq_big
        } else {
            d.iq_small
        };
        let longevity_hundredths = if d.longevity_scale == 0 {
            d.longevity_big * 10
        } else {
            d.longevity_small
        };
        let vision = pick(&vision_opts, d.vision);
        let language_family = pick(&language_family_opts, d.language_family);
        Metadata {
            class_t,
            disposition,
            height_tenths,
            length_tenths,
            weight_tenths: d.weight,
            size_variance: d.size_variance,
            iq,
            core_temp_tenths: d.core_temp,
            stability: d.stability,
            prevalence: d.prevalence,
            constancy: d.constancy,
            longevity_hundredths,
            no_appearing: d.no_appearing,
            vision,
            language_family,
        }
    }

    /// Draws a new entry: the dice of `MetaDraws` in their order, each from its
    /// range (see `possible_meta_draws`), and makes the entry they give (see
    /// `metadata_matches`). Height, length and longevity take the larger scale
    /// one time in three, intelligence one time in ten.
    pub fn new() -> (m: Metadata)
        ensures
            possible_metadata(m),
            exists|d: MetaDraws| possible_meta_draws(d) && #[trigger] metadata_matches(m, d),
    {
        let mut rng = thread_rng();
        let class = roll(&mut rng, 0, 31);
        let disposition = roll(&mut rng, 0, 4);
        let height_scale = roll(&mut rng, 0, 3);
        let mut height_big: i32 = 1;
        let mut height_small: i32 = 1;
        if height_scale == 0 {
            height_big = roll_i32(&mut rng, 1, 1000);
        } else {
            height_small = roll_i32(&mut rng, 1, 100);
        }
        let length_scale = roll(&mut rng, 0, 3);
        let mut length_big: i32 = 1;
        let mut length_small: i32 = 1;
        if length_scale == 0 {
            length_big = roll_i32(&mut rng, 1, 3000);
        } else {
            length_small = roll_i32(&mut rng, 1, 300);
        }
        let weight = roll_i32(&mut rng, 1, 10000);
        let size_variance = roll_i32(&mut rng, 0, 100);
        let iq_scale = roll(&mut rng, 0, 10);
        let mut iq_big: i32 = 0;
        let mut iq_small: i32 = 0;
        if iq_scale == 0 {
            iq_big = roll_i32(&mut rng, 0, 1000000);
        } else {
            iq_small = roll_i32(&mut rng, 0, 150);
        }
        let core_temp = roll_i32(&mut rng, -2000, 10000);
        let stability = roll_i32(&mut rng, 1, 100);
        let prevalence = roll_i32(&mut rng, 1, 100);
        let constancy = roll_i32(&mut rng, 1, 100);
        let longevity_scale = roll(&mut rng, 0, 3);
        let mut longevity_big: i32 = 1;
        let mut longevity_small: i32 = 10;
        if longevity_scale == 0 {
            longevity_big = roll_i32(&mut rng, 1, 1000);
        } else {
            longevity_small = roll_i32(&mut rng, 10, 200);
        }
        let no_appearing = roll_i32(&mut rng, 1, 12);
        let vision = roll(&mut rng, 0, 4);
        let language_family = roll(&mut rng, 0, 11);
        let d = MetaDraws {
            class,
            disposition,
            height_scale,
            height_big,
            height_small,
            length_scale,
            length_big,
            length_small,
            weight,
            size_variance,
            iq_scale,
            iq_big,
            iq_small,
            core_temp,
            stability,
            prevalence,
            constancy,
            longevity_scale,
            longevity_big,
            longevity_small,
            no_appearing,
            vision,
            language_family,
        };
        let m = Metadata::from_draws(d);
        proof {
            lemma_possible_meta_draws(m, d);
        }
        m
    }

    /// The class.
    pub fn class_t(&self) -> (s: String)
        ensures
            s@ == self.class_t@,
    {
        self.class_t.clone()
    }

    /// The temperament.
    pub fn disposition(&self) -> (s: String)
        ensures
            s@ == self.disposition@,
    {
        self.disposition.clone()
    }

    /// The eyesight.
    pub fn vision(&self) -> (s: String)
        ensures
            s@ == self.vision@,
    {
        self.vision.clone()
    }

    /// The language family.
    pub fn language_family(&self) -> (s: String)
        ensures
            s@ == self.language_family@,
    {
        self.language_family.clone()
    }
}

} // verus!
