use vstd::prelude::*;

verus! {

/// Why a theme operation was refused.
#[derive(Clone, Copy, Debug, PartialEq, Eq, PartialOrd, Ord, Hash, Structural)]
pub enum ThemeError {
    InvalidTheme,
    Unauthorized,
    ShipNotFound,
}

/// Preview of a ship theme: its name, two hex colours and a particle style.
#[derive(Clone, Debug, PartialEq, Eq)]
pub struct ThemePreview {
    pub name: String,
    pub colors: Vec<String>,
    pub particles: String,
}

/// A theme preview as text.
#[verifier::ext_equal]
pub struct ThemePreviewView {
    pub name: Seq<char>,
    pub colors: Seq<Seq<char>>,
    pub particles: Seq<char>,
}

impl View for ThemePreview {
    type V = ThemePreviewView;

    open spec fn view(&self) -> ThemePreviewView {
        ThemePreviewView {
            name: self.name@,
            colors: self.colors@.map_values(|c: String| c@),
            particles: self.particles@,
        }
    }
}

/// The preset with the given text, if any.
pub open spec fn preset(name: &str, c1: &str, c2: &str, particles: &str) -> Option<ThemePreviewView> {
    Some(ThemePreviewView { name: name@, colors: seq![c1@, c2@], particles: particles@ })
}

/// The ten theme presets, `nebula1` to `nebula10`.
pub open spec fn theme_preset(theme_id: Seq<char>) -> Option<ThemePreviewView> {
    if theme_id == "nebula1"@ {
        preset("Cosmic", "FF00FF", "00FFFF", "Stardust")
    } else if theme_id == "nebula2"@ {
        preset("Void", "000000", "444444", "dark_mtr")
    } else if theme_id == "nebula3"@ {
        preset("Nova", "FFA500", "FF4500", "Flare")
    } else if theme_id == "nebula4"@ {
        preset("Quasar", "0000FF", "FFFFFF", "Beams")
    } else if theme_id == "nebula5"@ {
        preset("Supernova", "FF0000", "FFFF00", "Shockwave")
    } else if theme_id == "nebula6"@ {
        preset("Wormhole", "A020F0", "000000", "Vortex")
    } else if theme_id == "nebula7"@ {
        preset("BlackHole", "000000", "111111", "snglrty")
    } else if theme_id == "nebula8"@ {
        preset("Aurora", "00FF00", "B026FF", "Borealis")
    } else if theme_id == "nebula9"@ {
        preset("Eclipse", "CCCCCC", "000000", "Corral")
    } else if theme_id == "nebula10"@ {
        preset("Meteor", "FFD700", "8B4513", "Trails")
    } else {
        None
    }
}

fn is_named(id: &String, name: &str) -> (r: bool)
    ensures
        r == (id@ == name@),
{
    let named = name.to_owned();
    *id == named
}

fn make_preview(name: &str, c1: &str, c2: &str, particles: &str) -> (r: ThemePreview)
    ensures
        Some(r@) == preset(name, c1, c2, particles),
{
    let mut colors: Vec<String> = Vec::new();
    colors.push(c1.to_owned());
    colors.push(c2.to_owned());
    let r = ThemePreview { name: name.to_owned(), colors, particles: particles.to_owned() };
    assert(r@.colors =~= seq![c1@, c2@]);
    r
}

/// Preview metadata of one of the ten preset themes, `InvalidTheme` for any
/// other id.
pub fn generate_theme_preview(_env: &soroban_sdk::Env, theme_id: &String) -> (r: Result<ThemePreview, ThemeError>)
    ensures
        match r {
            Ok(p) => theme_preset(theme_id@) == Some(p@),
            Err(e) => theme_preset(theme_id@).is_none() && e == ThemeError::InvalidTheme,
        },
{
    if is_named(theme_id, "nebula1") {
        Ok(make_preview("Cosmic", "FF00FF", "00FFFF", "Stardust"))
    } else if is_named(theme_id, "nebula2") {
        Ok(make_preview("Void", "000000", "444444", "dark_mtr"))
    } else if is_named(theme_id, "nebula3") {
        Ok(make_preview("Nova", "FFA500", "FF4500", "Flare"))
    } else if is_named(theme_id, "nebula4") {
        Ok(make_preview("Quasar", "0000FF", "FFFFFF", "Beams"))
    } else if is_named(theme_id, "nebula5") {
        Ok(make_preview("Supernova", "FF0000", "FFFF00", "Shockwave"))
    } else if is_named(theme_id, "nebula6") {
        Ok(make_preview("Wormhole", "A020F0", "000000", "Vortex"))
    } else if is_named(theme_id, "nebula7") {
        Ok(make_preview("BlackHole", "000000", "111111", "snglrty"))
    } else if is_named(theme_id, "nebula8") {
        Ok(make_preview("Aurora", "00FF00", "B026FF", "Borealis"))
    } else if is_named(theme_id, "nebula9") {
        Ok(make_preview("Eclipse", "CCCCCC", "000000", "Corral"))
    } else if is_named(theme_id, "nebula10") {
        Ok(make_preview("Meteor", "FFD700", "8B4513", "Trails"))
    } else {
        Err(ThemeError::InvalidTheme)
    }
}

/// The theme applied to one ship.
#[derive(Clone, Debug)]
pub struct ShipTheme {
    pub ship_id: u64,
    pub theme_id: String,
}

/// The ship-to-theme associations the game stores.
#[derive(Clone, Debug)]
pub struct ShipThemes {
    pub entries: Vec<ShipTheme>,
}

impl ShipThemes {
    /// No ship appears twice.
    pub open spec fn wf(&self) -> bool {
        forall|i: int, j: int|
            0 <= i < j < self.entries@.len() ==> #[trigger] self.entries@[i].ship_id
                != #[trigger] self.entries@[j].ship_id
    }

    /// Whether `ship_id` has an entry.
    pub open spec fn has_ship(&self, ship_id: u64) -> bool {
        exists|i: int| 0 <= i < self.entries@.len() && #[trigger] self.entries@[i].ship_id == ship_id
    }

    /// Index of the entry of `ship_id`.
    pub open spec fn index_of(&self, ship_id: u64) -> int {
        choose|i: int| 0 <= i < self.entries@.len() && #[trigger] self.entries@[i].ship_id == ship_id
    }

    /// No theme is applied yet.
    pub fn new() -> (r: Self)
        ensures
            r.wf(),
            r@ == Map::<u64, Seq<char>>::empty(),
    {
        let r = ShipThemes { entries: Vec::new() };
        assert(r@ =~= Map::<u64, Seq<char>>::empty());
        r
    }

    /// Check that no ship appears twice.
    pub fn is_well_formed(&self) -> (r: bool)
        ensures
            r == self.wf(),
    {
        let n = self.entries.len();
        let mut i: usize = 0;
        while i < n
            invariant
                n == self.entries@.len(),
                i <= n,
                forall|a: int, b: int|
                    0 <= a < b < n && a < i ==> #[trigger] self.entries@[a].ship_id
                        != #[trigger] self.entries@[b].ship_id,
            decreases n - i,
        {
            let mut j: usize = i + 1;
            while j < n
                invariant
                    n == self.entries@.len(),
                    i < n,
                    i + 1 <= j <= n,
                    forall|a: int, b: int|
                        0 <= a < b < n && a < i ==> #[trigger] self.entries@[a].ship_id
                            != #[trigger] self.entries@[b].ship_id,
                    forall|b: int| i < b < j ==> self.entries@[i as int].ship_id != #[trigger] self.entries@[b].ship_id,
                decreases n - j,
            {
                if self.entries[i].ship_id == self.entries[j].ship_id {
                    return false;
                }
                j = j + 1;
            }
            i = i + 1;
        }
        true
    }

    fn find(&self, ship_id: u64) -> (r: Option<usize>)
        requires
            self.wf(),
        ensures
            match r {
                Some(i) => i < self.entries@.len() && self.entries@[i as int].ship_id == ship_id
                    && self.has_ship(ship_id) && self.index_of(ship_id) == i,
                None => !self.has_ship(ship_id),
            },
    {
        let mut i: usize = 0;
        while i < self.entries.len()
            invariant
                self.wf(),
                i <= self.entries@.len(),
                forall|j: int| 0 <= j < i ==> #[trigger] self.entries@[j].ship_id != ship_id,
            decreases self.entries@.len() - i,
        {
            if self.entries[i].ship_id == ship_id {
                proof {
                    assert(self.has_ship(ship_id));
                    let k = self.index_of(ship_id);
                    if k != i {
                        if k < i {
                            assert(self.entries@[k].ship_id != self.entries@[i as int].ship_id);
                        } else {
                            assert(self.entries@[i as int].ship_id != self.entries@[k].ship_id);
                        }
                    }
                }
                return Some(i);
            }
            i = i + 1;
        }
        None
    }
}

impl View for ShipThemes {
    type V = Map<u64, Seq<char>>;

    /// The theme of each ship that has one.
    open spec fn view(&self) -> Map<u64, Seq<char>> {
        Map::new(|k: u64| self.has_ship(k), |k: u64| self.entries@[self.index_of(k)].theme_id@)
    }
}

/// Effect of applying `theme_id` to `ship_id`.
pub open spec fn apply_theme_spec(m: Map<u64, Seq<char>>, ship_id: u64, theme_id: Seq<char>) -> (Map<u64, Seq<char>>, Result<(), ThemeError>) {
    if theme_preset(theme_id).is_none() {
        (m, Err(ThemeError::InvalidTheme))
    } else {
        (m.insert(ship_id, theme_id), Ok(()))
    }
}

/// Apply one of the preset themes to a ship, replacing any earlier theme;
/// an id that is not a preset is refused with `InvalidTheme` and nothing
/// changes.
pub fn apply_theme(themes: &mut ShipThemes, ship_id: u64, theme_id: &String) -> (r: Result<(), ThemeError>)
    requires
        old(themes).wf(),
    ensures
        final(themes).wf(),
        final(themes)@ == apply_theme_spec(old(themes)@, ship_id, theme_id@).0,
        r == apply_theme_spec(old(themes)@, ship_id, theme_id@).1,
{
    if !is_preset(theme_id) {
        return Err(ThemeError::InvalidTheme);
    }
    let ghost before = *themes;
    match themes.find(ship_id) {
        Some(i) => {
            let entry = ShipTheme { ship_id, theme_id: theme_id.clone() };
            themes.entries.set(i, entry);
            proof {
                assert forall|k: u64| #[trigger] themes.has_ship(k) == before.has_ship(k) by {
                    if before.has_ship(k) {
                        let j = before.index_of(k);
                        if j == i { assert(themes.entries@[i as int].ship_id == k); }
                        else { assert(themes.entries@[j].ship_id == k); }
                    }
                    if themes.has_ship(k) {
                        let j = themes.index_of(k);
                        if j == i { assert(before.entries@[i as int].ship_id == k); }
                        else { assert(before.entries@[j].ship_id == k); }
                    }
                }
                assert forall|a: int, b: int| 0 <= a < b < themes.entries@.len() implies
                    #[trigger] themes.entries@[a].ship_id != #[trigger] themes.entries@[b].ship_id by {
                    assert(before.entries@[a].ship_id != before.entries@[b].ship_id);
                }
                assert forall|k: u64| themes.has_ship(k) implies
                    themes.entries@[themes.index_of(k)].theme_id@ == before@.insert(ship_id, theme_id@)[k] by {
                    let j = themes.index_of(k);
                    if k == ship_id {
                        if j != i {
                            if j < i as int {
                                assert(themes.entries@[j].ship_id != themes.entries@[i as int].ship_id);
                            } else {
                                assert(themes.entries@[i as int].ship_id != themes.entries@[j].ship_id);
                            }
                        }
                    } else {
                        let j0 = before.index_of(k);
                        assert(before.entries@[j0].ship_id == k);
                        if j != j0 {
                            if j < j0 {
                                assert(themes.entries@[j].ship_id != themes.entries@[j0].ship_id);
                            } else {
                                assert(themes.entries@[j0].ship_id != themes.entries@[j].ship_id);
                            }
                        }
                    }
                }
                assert(themes@ =~= before@.insert(ship_id, theme_id@));
            }
        },
        None => {
            themes.entries.push(ShipTheme { ship_id, theme_id: theme_id.clone() });
            proof {
                let n = before.entries@.len() as int;
                assert forall|a: int, b: int| 0 <= a < b < themes.entries@.len() implies
                    #[trigger] themes.entries@[a].ship_id != #[trigger] themes.entries@[b].ship_id by {
                    if b == n {
                        assert(before.entries@[a].ship_id != ship_id);
                    } else {
                        assert(before.entries@[a].ship_id != before.entries@[b].ship_id);
                    }
                }
                assert forall|k: u64| #[trigger] themes.has_ship(k) == (before.has_ship(k) || k == ship_id) by {
                    if before.has_ship(k) {
                        let j = before.index_of(k);
                        assert(themes.entries@[j].ship_id == k);
                    }
                    if k == ship_id {
                        assert(themes.entries@[n].ship_id == k);
                    }
                    if themes.has_ship(k) {
                        let j = themes.index_of(k);
                        if j < n { assert(before.entries@[j].ship_id == k); }
                    }
                }
                assert forall|k: u64| themes.has_ship(k) implies
                    themes.entries@[themes.index_of(k)].theme_id@ == before@.insert(ship_id, theme_id@)[k] by {
                    let j = themes.index_of(k);
                    if k == ship_id {
                        if j < n { assert(before.entries@[j].ship_id == ship_id); }
                    } else {
                        let j0 = before.index_of(k);
                        assert(before.entries@[j0].ship_id == k);
                        assert(themes.entries@[j0].ship_id == k);
                        if j != j0 {
                            if j < j0 {
                                assert(themes.entries@[j].ship_id != themes.entries@[j0].ship_id);
                            } else {
                                assert(themes.entries@[j0].ship_id != themes.entries@[j].ship_id);
                            }
                        }
                    }
                }
                assert(themes@ =~= before@.insert(ship_id, theme_id@));
            }
        },
    }
    Ok(())
}

fn is_preset(theme_id: &String) -> (r: bool)
    ensures
        r == theme_preset(theme_id@).is_some(),
{
    is_named(theme_id, "nebula1") || is_named(theme_id, "nebula2") || is_named(theme_id, "nebula3")
        || is_named(theme_id, "nebula4") || is_named(theme_id, "nebula5") || is_named(theme_id, "nebula6")
        || is_named(theme_id, "nebula7") || is_named(theme_id, "nebula8") || is_named(theme_id, "nebula9")
        || is_named(theme_id, "nebula10")
}

/// The theme applied to a ship, if any.
pub fn get_theme(themes: &ShipThemes, ship_id: u64) -> (r: Option<String>)
    requires
        themes.wf(),
    ensures
        match r {
            Some(t) => themes@.contains_key(ship_id) && themes@[ship_id] == t@,
            None => !themes@.contains_key(ship_id),
        },
{
    match themes.find(ship_id) {
        Some(i) => Some(themes.entries[i].theme_id.clone()),
        None => None,
    }
}

/// The preset table: the ten ids `nebula1` to `nebula10` and, for each, its
/// name, two hex colours and particle style; every other id has no preset.
pub proof fn lemma_theme_preset_table(theme_id: Seq<char>)
    ensures
        theme_preset("nebula1"@) == Some(ThemePreviewView { name: "Cosmic"@, colors: seq!["FF00FF"@, "00FFFF"@], particles: "Stardust"@ }),
        theme_preset("nebula2"@) == Some(ThemePreviewView { name: "Void"@, colors: seq!["000000"@, "444444"@], particles: "dark_mtr"@ }),
        theme_preset("nebula3"@) == Some(ThemePreviewView { name: "Nova"@, colors: seq!["FFA500"@, "FF4500"@], particles: "Flare"@ }),
        theme_preset("nebula4"@) == Some(ThemePreviewView { name: "Quasar"@, colors: seq!["0000FF"@, "FFFFFF"@], particles: "Beams"@ }),
        theme_preset("nebula5"@) == Some(ThemePreviewView { name: "Supernova"@, colors: seq!["FF0000"@, "FFFF00"@], particles: "Shockwave"@ }),
        theme_preset("nebula6"@) == Some(ThemePreviewView { name: "Wormhole"@, colors: seq!["A020F0"@, "000000"@], particles: "Vortex"@ }),
        theme_preset("nebula7"@) == Some(ThemePreviewView { name: "BlackHole"@, colors: seq!["000000"@, "111111"@], particles: "snglrty"@ }),
        theme_preset("nebula8"@) == Some(ThemePreviewView { name: "Aurora"@, colors: seq!["00FF00"@, "B026FF"@], particles: "Borealis"@ }),
        theme_preset("nebula9"@) == Some(ThemePreviewView { name: "Eclipse"@, colors: seq!["CCCCCC"@, "000000"@], particles: "Corral"@ }),
        theme_preset("nebula10"@) == Some(ThemePreviewView { name: "Meteor"@, colors: seq!["FFD700"@, "8B4513"@], particles: "Trails"@ }),
        theme_preset(theme_id) is Some <==> (theme_id == "nebula1"@ || theme_id == "nebula2"@
            || theme_id == "nebula3"@ || theme_id == "nebula4"@ || theme_id == "nebula5"@
            || theme_id == "nebula6"@ || theme_id == "nebula7"@ || theme_id == "nebula8"@
            || theme_id == "nebula9"@ || theme_id == "nebula10"@),
{
    reveal_strlit("nebula1");
    reveal_strlit("nebula2");
    reveal_strlit("nebula3");
    reveal_strlit("nebula4");
    reveal_strlit("nebula5");
    reveal_strlit("nebula6");
    reveal_strlit("nebula7");
    reveal_strlit("nebula8");
    reveal_strlit("nebula9");
    reveal_strlit("nebula10");
    assert("nebula1"@[6] == '1');
    assert("nebula2"@[6] == '2');
    assert("nebula3"@[6] == '3');
    assert("nebula4"@[6] == '4');
    assert("nebula5"@[6] == '5');
    assert("nebula6"@[6] == '6');
    assert("nebula7"@[6] == '7');
    assert("nebula8"@[6] == '8');
    assert("nebula9"@[6] == '9');
    assert("nebula10"@.len() == 8);
}

/// What applying a theme gives back: after a preset theme is applied to a
/// ship, reading that ship yields the theme and every other ship reads as
/// before; an id that is not a preset changes nothing.
pub proof fn lemma_applied_theme_reads_back(m: Map<u64, Seq<char>>, ship_id: u64, theme_id: Seq<char>, other: u64)
    ensures
        theme_preset(theme_id) is Some ==> apply_theme_spec(m, ship_id, theme_id).0.contains_key(ship_id)
            && apply_theme_spec(m, ship_id, theme_id).0[ship_id] == theme_id,
        theme_preset(theme_id) is None ==> apply_theme_spec(m, ship_id, theme_id).0 == m,
        other != ship_id ==> apply_theme_spec(m, ship_id, theme_id).0.contains_key(other) == m.contains_key(other),
        other != ship_id && m.contains_key(other) ==> apply_theme_spec(m, ship_id, theme_id).0[other] == m[other],
{
}

} // verus!
