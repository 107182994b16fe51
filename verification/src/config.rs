//! Favourite heights and the settings stored with them.
use vstd::prelude::*;

verus! {

/// Number of favourite-height slots.
pub const FAV_SLOTS: usize = 3;

/// Standing threshold used while fewer than two favourites are set (90 cm).
pub const DEFAULT_STANDING_HEIGHT: u32 = 9000;

/// The fields of the settings file as stored, heights in tenths of a
/// millimetre. `sit` and `stand` are the two presets of older versions; they
/// are read, never written.
#[derive(Debug, Clone, Copy, PartialEq, Eq, Structural)]
pub struct StoredConfig {
    pub fav1: Option<u32>,
    pub fav2: Option<u32>,
    pub fav3: Option<u32>,
    pub sit: Option<u32>,
    pub stand: Option<u32>,
}

/// Favourite heights, in tenths of a millimetre.
#[derive(Debug, Clone, Copy, PartialEq, Eq, Structural)]
pub struct Config {
    pub fav1: Option<u32>,
    pub fav2: Option<u32>,
    pub fav3: Option<u32>,
}

/// Settings after loading: older files with no favourite but `sit`/`stand`
/// presets get those as the first two favourites.
pub open spec fn spec_from_stored(s: StoredConfig) -> Config {
    if s.fav1 is None && s.fav2 is None && s.fav3 is None {
        Config { fav1: s.sit, fav2: s.stand, fav3: None }
    } else {
        Config { fav1: s.fav1, fav2: s.fav2, fav3: s.fav3 }
    }
}

/// The smaller of two optional heights, ignoring unset ones.
pub open spec fn opt_min(a: Option<u32>, b: Option<u32>) -> Option<u32> {
    match (a, b) {
        (Some(x), Some(y)) => Some(if x <= y { x } else { y }),
        (Some(_), None) => a,
        (None, _) => b,
    }
}

/// The larger of two optional heights, ignoring unset ones.
pub open spec fn opt_max(a: Option<u32>, b: Option<u32>) -> Option<u32> {
    match (a, b) {
        (Some(x), Some(y)) => Some(if x >= y { x } else { y }),
        (Some(_), None) => a,
        (None, _) => b,
    }
}

impl Config {
    /// The favourites, slot by slot.
    pub open spec fn spec_favs(self) -> Seq<Option<u32>> {
        seq![self.fav1, self.fav2, self.fav3]
    }

    /// Number of set favourites.
    pub open spec fn fav_count(self) -> int {
        (if self.fav1 is Some { 1int } else { 0 }) + (if self.fav2 is Some { 1int } else { 0 }) + (
        if self.fav3 is Some { 1int } else { 0 })
    }

    /// Lowest set favourite.
    pub open spec fn fav_min(self) -> Option<u32> {
        opt_min(opt_min(self.fav1, self.fav2), self.fav3)
    }

    /// Highest set favourite.
    pub open spec fn fav_max(self) -> Option<u32> {
        opt_max(opt_max(self.fav1, self.fav2), self.fav3)
    }

    /// Twice the least height counted as standing, that is the height in
    /// twentieths of a millimetre: the midpoint between the lowest and the
    /// highest favourite, or 90 cm while fewer than two favourites are set.
    pub open spec fn spec_standing_threshold(self) -> int {
        if self.fav_count() >= 2 {
            self.fav_min().unwrap() + self.fav_max().unwrap()
        } else {
            2 * DEFAULT_STANDING_HEIGHT
        }
    }

    /// Settings with no favourite set.
    pub fn new() -> (c: Config)
        ensures
            c.fav1 is None && c.fav2 is None && c.fav3 is None,
    {
        Config { fav1: None, fav2: None, fav3: None }
    }

    /// Settings from the stored fields, moving old `sit`/`stand` presets to the
    /// first two slots when no favourite is set.
    pub fn from_stored(s: StoredConfig) -> (c: Config)
        ensures
            c == spec_from_stored(s),
    {
        if s.fav1.is_none() && s.fav2.is_none() && s.fav3.is_none() {
            Config { fav1: s.sit, fav2: s.stand, fav3: None }
        } else {
            Config { fav1: s.fav1, fav2: s.fav2, fav3: s.fav3 }
        }
    }

    /// The fields to store: the favourites, and no old preset.
    pub fn to_stored(&self) -> (s: StoredConfig)
        ensures
            s == (StoredConfig {
                fav1: self.fav1,
                fav2: self.fav2,
                fav3: self.fav3,
                sit: None,
                stand: None,
            }),
    {
        StoredConfig { fav1: self.fav1, fav2: self.fav2, fav3: self.fav3, sit: None, stand: None }
    }

    /// The favourites, slot by slot.
    pub fn favs(&self) -> (f: [Option<u32>; 3])
        ensures
            f@ == self.spec_favs(),
    {
        let f = [self.fav1, self.fav2, self.fav3];
        assert(f@ =~= self.spec_favs());
        f
    }

    /// Favourite of slot `i`; `None` for an unset or nonexistent slot.
    pub fn fav(&self, i: usize) -> (h: Option<u32>)
        ensures
            h == (if i < FAV_SLOTS {
                self.spec_favs()[i as int]
            } else {
                None
            }),
    {
        match i {
            0 => self.fav1,
            1 => self.fav2,
            2 => self.fav3,
            _ => None,
        }
    }

    /// Stores height `h` in slot `i`; a nonexistent slot changes nothing.
    pub fn set_fav(&mut self, i: usize, h: u32)
        ensures
            final(self).spec_favs() == (if i < FAV_SLOTS {
                old(self).spec_favs().update(i as int, Some(h))
            } else {
                old(self).spec_favs()
            }),
    {
        match i {
            0 => self.fav1 = Some(h),
            1 => self.fav2 = Some(h),
            2 => self.fav3 = Some(h),
            _ => {},
        }
        assert(final(self).spec_favs() =~= (if i < FAV_SLOTS {
            old(self).spec_favs().update(i as int, Some(h))
        } else {
            old(self).spec_favs()
        }));
    }
}

impl Default for Config {
    fn default() -> (c: Config)
        ensures
            c.fav1 is None && c.fav2 is None && c.fav3 is None,
    {
        Config::new()
    }
}

fn min_opt(a: Option<u32>, b: Option<u32>) -> (r: Option<u32>)
    ensures
        r == opt_min(a, b),
{
    match (a, b) {
        (Some(x), Some(y)) => Some(if x <= y { x } else { y }),
        (Some(_), None) => a,
        (None, _) => b,
    }
}

fn max_opt(a: Option<u32>, b: Option<u32>) -> (r: Option<u32>)
    ensures
        r == opt_max(a, b),
{
    match (a, b) {
        (Some(x), Some(y)) => Some(if x >= y { x } else { y }),
        (Some(_), None) => a,
        (None, _) => b,
    }
}

/// The least height that counts as standing in the usage chart, exactly, in
/// twentieths of a millimetre (half the tenths of a millimetre it takes to say
/// the midpoint of two favourites).
pub fn standing_threshold(cfg: &Config) -> (t: u64)
    ensures
        t == cfg.spec_standing_threshold(),
{
    let count: u32 = (if cfg.fav1.is_some() { 1u32 } else { 0 }) + (if cfg.fav2.is_some() {
        1u32
    } else {
        0
    }) + (if cfg.fav3.is_some() { 1u32 } else { 0 });
    if count >= 2 {
        let lo = min_opt(min_opt(cfg.fav1, cfg.fav2), cfg.fav3);
        let hi = max_opt(max_opt(cfg.fav1, cfg.fav2), cfg.fav3);
        match (lo, hi) {
            (Some(l), Some(h)) => l as u64 + h as u64,
            _ => 2 * DEFAULT_STANDING_HEIGHT as u64,
        }
    } else {
        2 * DEFAULT_STANDING_HEIGHT as u64
    }
}

/// Law: what is saved loads back unchanged.
pub proof fn law_save_load(c: Config)
    ensures
        spec_from_stored(
            StoredConfig { fav1: c.fav1, fav2: c.fav2, fav3: c.fav3, sit: None, stand: None },
        ) == c,
{
}

/// Law: after a load the old presets are gone; they become the first two
/// favourites exactly when the file held no favourite.
pub proof fn law_legacy_migration(s: StoredConfig)
    ensures
        (s.fav1 is None && s.fav2 is None && s.fav3 is None) ==> spec_from_stored(s).spec_favs()
            == seq![s.sit, s.stand, None],
        !(s.fav1 is None && s.fav2 is None && s.fav3 is None) ==> spec_from_stored(s).spec_favs()
            == seq![s.fav1, s.fav2, s.fav3],
{
}

/// Law: a favourite reads back as it was set, and the other slots keep theirs.
pub proof fn law_set_then_read(before: Config, after: Config, i: int, h: u32)
    requires
        0 <= i < FAV_SLOTS,
        after.spec_favs() == before.spec_favs().update(i, Some(h)),
    ensures
        after.spec_favs()[i] == Some(h),
        forall|j: int| 0 <= j < FAV_SLOTS && j != i ==> after.spec_favs()[j] == before.spec_favs()[j],
{
}

/// Law: the standing threshold lies between the lowest and the highest favourite.
pub proof fn law_threshold_between(c: Config)
    requires
        c.fav_count() >= 2,
    ensures
        c.fav_min() is Some && c.fav_max() is Some,
        2 * c.fav_min().unwrap() <= c.spec_standing_threshold() <= 2 * c.fav_max().unwrap(),
{
}

} // verus!
