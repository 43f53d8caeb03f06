//! The animation's state: the table of art, and the original frame that
//! every tick twinkles afresh.
use crate::angle::{
    angle_steps, compute_angle, days_since_epoch_spec, is_calendar_date, LocalTime, OrbitalAngle,
};
use crate::catalog::{is_default_table, is_floor_entry, no_entry_below, ArtCatalog};
use crate::frame::{
    is_marker, is_twinkle_of, lines_of, picks_fit, split_lines, twinkle, twinkle_with_picks,
    twinkled_by, twinkled_char,
};
use vstd::prelude::*;

verus! {

/// Milliseconds to wait between two frames.
pub const TICK_MILLIS: u64 = 800;

/// Why no art could be shown.
#[derive(Clone, Copy, Debug, PartialEq, Eq)]
pub enum LoadError {
    /// The angle lies below every threshold of the table.
    LookupMiss,
    /// The asset that the table named could not be read.
    AssetReadError,
}

/// Earth's approximate orbital angle at the local time `now`, counting days
/// from 2000-01-01 00:00:00 local time, when local time was ahead of UTC by
/// `epoch_utc_offset` seconds; `None` where `now` holds no calendar date.
pub fn calculate_earth_position(now: &LocalTime, epoch_utc_offset: i32) -> (r: Option<
    OrbitalAngle,
>)
    ensures
        r is Some <==> is_calendar_date(now.year as int, now.month as int, now.day as int),
        r matches Some(a) ==> a.wf() && a.view_steps() == angle_steps(days_since_epoch_spec(*now, epoch_utc_offset as int)),
{
    match now.days_since_epoch(epoch_utc_offset) {
        Some(days) => Some(compute_angle(days)),
        None => None,
    }
}

/// The table of art and the original frame loaded from it.
#[derive(Clone, Debug)]
pub struct SpaceRace {
    pub art_lines: Vec<Vec<char>>,
    pub degree_art_map: ArtCatalog,
}

impl SpaceRace {
    pub open spec fn wf(&self) -> bool {
        self.degree_art_map.wf()
    }

    /// No art yet, and the table that ships with the program.
    pub fn new() -> (r: SpaceRace)
        ensures
            r.wf(),
            r.art_lines@.len() == 0,
            is_default_table(r.degree_art_map),
    {
        SpaceRace { art_lines: Vec::new(), degree_art_map: ArtCatalog::default_table() }
    }

    /// No art yet, and the given table.
    pub fn with_catalog(catalog: ArtCatalog) -> (r: SpaceRace)
        ensures
            r.art_lines@.len() == 0,
            r.degree_art_map == catalog,
    {
        SpaceRace { art_lines: Vec::new(), degree_art_map: catalog }
    }

    /// The asset to show at `position`: the one whose threshold is the
    /// greatest strictly below the angle's whole degrees, or `LookupMiss`
    /// where there is none.
    pub fn asset_for_position(&self, position: &OrbitalAngle) -> (r: Result<String, LoadError>)
        requires
            position.wf(),
        ensures
            r is Ok <==> !no_entry_below(
                self.degree_art_map.entries@,
                position.view_steps() / 1461,
            ),
            r == Err::<String, LoadError>(LoadError::LookupMiss) <==> no_entry_below(
                self.degree_art_map.entries@,
                position.view_steps() / 1461,
            ),
            r matches Ok(a) ==> exists|i: int|
                is_floor_entry(self.degree_art_map.entries@, position.view_steps() / 1461, i)
                    && a@ == self.degree_art_map.entries@[i].1@,
    {
        let degree = position.whole_degrees();
        match self.degree_art_map.floor_lookup(degree) {
            Some(a) => Ok(a),
            None => Err(LoadError::LookupMiss),
        }
    }

    /// Makes the lines of `text` the original frame.
    pub fn load_art_text(&mut self, text: &Vec<char>)
        ensures
            final(self).degree_art_map == old(self).degree_art_map,
            final(self).art_lines@.len() == lines_of(text@).len(),
            forall|k: int|
                0 <= k < final(self).art_lines@.len() ==> #[trigger] final(self).art_lines@[k]@
                    == lines_of(text@)[k],
    {
        self.art_lines = split_lines(text);
    }

    /// Makes the lines of the asset's text the original frame where it could
    /// be read; where it could not, the frame becomes empty and the failure
    /// is reported.
    pub fn install_asset(&mut self, text: Option<Vec<char>>) -> (r: Result<(), LoadError>)
        ensures
            final(self).degree_art_map == old(self).degree_art_map,
            r is Ok <==> text is Some,
            r is Err ==> r == Err::<(), LoadError>(LoadError::AssetReadError)
                && final(self).art_lines@.len() == 0,
            text matches Some(t) ==> final(self).art_lines@.len() == lines_of(t@).len()
                && forall|k: int|
                0 <= k < final(self).art_lines@.len() ==> #[trigger] final(self).art_lines@[k]@
                    == lines_of(t@)[k],
    {
        match text {
            Some(t) => {
                self.load_art_text(&t);
                Ok(())
            },
            None => {
                self.art_lines = Vec::new();
                Err(LoadError::AssetReadError)
            },
        }
    }

    /// The frame of one tick drawn with the given substitutes; the original
    /// frame is left as it is.
    pub fn frame_with_picks(&self, picks: &Vec<Vec<u8>>) -> (r: Vec<Vec<char>>)
        requires
            picks_fit(self.art_lines@, picks@),
        ensures
            twinkled_by(self.art_lines@, picks@, r@),
    {
        twinkle_with_picks(&self.art_lines, picks)
    }

    /// The frame of one tick: the original frame twinkled afresh, which is
    /// itself left as it is.
    pub fn tick(&self) -> (r: Vec<Vec<char>>)
        ensures
            is_twinkle_of(self.art_lines@, r@),
    {
        twinkle(&self.art_lines)
    }
}

/// Twinkling never compounds when each tick starts from the original frame.
/// Say one tick picks the blank substitute for every character, and the
/// next tick twinkles the original with any choice: each marker of the
/// original then shows a member of its palette again, the marker itself
/// where substitute 0 was picked. Twinkling the blanked frame instead would
/// leave a blank at each such place for good.
pub proof fn lemma_ticks_do_not_compound(
    original: Seq<Vec<char>>,
    blank_picks: Seq<Vec<u8>>,
    blanked: Seq<Vec<char>>,
    next_picks: Seq<Vec<u8>>,
    next: Seq<Vec<char>>,
    again_picks: Seq<Vec<u8>>,
    again: Seq<Vec<char>>,
    i: int,
    j: int,
)
    requires
        picks_fit(original, blank_picks),
        forall|a: int, b: int|
            0 <= a < original.len() && 0 <= b < original[a]@.len() ==> #[trigger] blank_picks[a]@[b]
                == 3,
        twinkled_by(original, blank_picks, blanked),
        picks_fit(original, next_picks),
        twinkled_by(original, next_picks, next),
        picks_fit(blanked, again_picks),
        twinkled_by(blanked, again_picks, again),
        0 <= i < original.len(),
        0 <= j < original[i]@.len(),
        is_marker(original[i]@[j]),
    ensures
        blanked[i]@[j] == ' ',
        is_twinkle_of(original, next),
        next_picks[i]@[j] == 0 ==> next[i]@[j] == original[i]@[j],
        again[i]@[j] == ' ',
{
    crate::frame::lemma_picks_give_twinkle(original, next_picks, next);
    assert(blank_picks[i]@[j] == 3);
    assert(twinkled_char(original[i]@[j], 3) == ' ');
    assert(blanked[i]@[j] == ' ');
    assert(again[i]@[j] == twinkled_char(blanked[i]@[j], again_picks[i]@[j] as int));
}

} // verus!
