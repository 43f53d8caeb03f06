//! A fixed table from angle thresholds (whole degrees) to art asset ids, with
//! a floor-style lookup.
use vstd::prelude::*;

verus! {

/// Thresholds strictly increasing along the table.
pub open spec fn sorted_thresholds(entries: Seq<(i32, String)>) -> bool {
    forall|i: int, j: int|
        0 <= i < j < entries.len() ==> #[trigger] entries[i].0 < #[trigger] entries[j].0
}

/// `entries[i]` holds the greatest threshold strictly below `degree`.
pub open spec fn is_floor_entry(entries: Seq<(i32, String)>, degree: int, i: int) -> bool {
    &&& 0 <= i < entries.len()
    &&& entries[i].0 < degree
    &&& forall|j: int|
        0 <= j < entries.len() && #[trigger] entries[j].0 < degree ==> entries[j].0
            <= entries[i].0
}

/// No threshold of the table is strictly below `degree`.
pub open spec fn no_entry_below(entries: Seq<(i32, String)>, degree: int) -> bool {
    forall|j: int| 0 <= j < entries.len() ==> #[trigger] entries[j].0 >= degree
}

/// The thresholds of the table that ships with the program.
pub open spec fn default_thresholds() -> Seq<i32> {
    seq![0, 20, 40, 60, 90, 120, 140, 160, 180, 200, 220, 240, 270, 300, 320, 340]
}

/// `c` is the table that ships with the program.
pub open spec fn is_default_table(c: ArtCatalog) -> bool {
    &&& sorted_thresholds(c.entries@)
    &&& c.entries@.len() == 16
    &&& forall|i: int| 0 <= i < 16 ==> #[trigger] c.entries@[i].0 == default_thresholds()[i]
    &&& c.entries@[0].1@ == "asciiArt/space010.txt"@
    &&& c.entries@[1].1@ == "asciiArt/space2030.txt"@
    &&& c.entries@[2].1@ == "asciiArt/space4050.txt"@
    &&& c.entries@[3].1@ == "asciiArt/space6070.txt"@
    &&& c.entries@[4].1@ == "asciiArt/space90110.txt"@
    &&& c.entries@[5].1@ == "asciiArt/space120130.txt"@
    &&& c.entries@[6].1@ == "asciiArt/space140150.txt"@
    &&& c.entries@[7].1@ == "asciiArt/space160170.txt"@
    &&& c.entries@[8].1@ == "asciiArt/space180190.txt"@
    &&& c.entries@[9].1@ == "asciiArt/space200210.txt"@
    &&& c.entries@[10].1@ == "asciiArt/space220230.txt"@
    &&& c.entries@[11].1@ == "asciiArt/space240260.txt"@
    &&& c.entries@[12].1@ == "asciiArt/space270290.txt"@
    &&& c.entries@[13].1@ == "asciiArt/space300310.txt"@
    &&& c.entries@[14].1@ == "asciiArt/space32030.txt"@
    &&& c.entries@[15].1@ == "asciiArt/space34050.txt"@
}

/// An ordered table of (threshold in whole degrees, asset id) pairs with
/// unique thresholds.
#[derive(Clone, Debug)]
pub struct ArtCatalog {
    pub entries: Vec<(i32, String)>,
}

impl ArtCatalog {
    pub open spec fn wf(&self) -> bool {
        sorted_thresholds(self.entries@)
    }

    /// A table of the given entries, or `None` unless their thresholds are
    /// strictly increasing.
    pub fn from_entries(entries: Vec<(i32, String)>) -> (r: Option<ArtCatalog>)
        ensures
            r is Some <==> sorted_thresholds(entries@),
            r matches Some(c) ==> c.entries@ == entries@ && sorted_thresholds(c.entries@),
    {
        let n = entries.len();
        let mut i: usize = 1;
        if n == 0 {
            return Some(ArtCatalog { entries });
        }
        while i < n
            invariant
                1 <= i <= n,
                n == entries@.len(),
                forall|a: int, b: int| 0 <= a < b < i ==> #[trigger] entries@[a].0 < #[trigger] entries@[b].0,
            decreases n - i,
        {
            if entries[i - 1].0 >= entries[i].0 {
                assert(!sorted_thresholds(entries@)) by {
                    assert(entries@[i - 1].0 >= entries@[i as int].0);
                }
                return None;
            }
            assert forall|a: int, b: int| 0 <= a < b < i + 1 implies #[trigger] entries@[a].0
                < #[trigger] entries@[b].0 by {
                if b == i && a < i - 1 {
                    assert(entries@[a].0 < entries@[i - 1].0);
                }
            }
            i = i + 1;
        }
        Some(ArtCatalog { entries })
    }

    /// The table that ships with the program: sixteen thresholds from 0 to 340
    /// degrees, each with the path of its art file.
    pub fn default_table() -> (r: ArtCatalog)
        ensures
            is_default_table(r),
    {
        let entries = vec![
            (0, "asciiArt/space010.txt".to_owned()),
            (20, "asciiArt/space2030.txt".to_owned()),
            (40, "asciiArt/space4050.txt".to_owned()),
            (60, "asciiArt/space6070.txt".to_owned()),
            (90, "asciiArt/space90110.txt".to_owned()),
            (120, "asciiArt/space120130.txt".to_owned()),
            (140, "asciiArt/space140150.txt".to_owned()),
            (160, "asciiArt/space160170.txt".to_owned()),
            (180, "asciiArt/space180190.txt".to_owned()),
            (200, "asciiArt/space200210.txt".to_owned()),
            (220, "asciiArt/space220230.txt".to_owned()),
            (240, "asciiArt/space240260.txt".to_owned()),
            (270, "asciiArt/space270290.txt".to_owned()),
            (300, "asciiArt/space300310.txt".to_owned()),
            (320, "asciiArt/space32030.txt".to_owned()),
            (340, "asciiArt/space34050.txt".to_owned()),
        ];
        let r = ArtCatalog { entries };
        assert(sorted_thresholds(r.entries@)) by {
            assert forall|i: int| 0 <= i < 16 implies #[trigger] r.entries@[i].0 == default_thresholds()[i] by {}
        }
        r
    }

    /// The asset id whose threshold is the greatest one strictly below
    /// `degree`, or `None` where no threshold is below it.
    pub fn floor_lookup(&self, degree: i32) -> (r: Option<String>)
        ensures
            r is None <==> no_entry_below(self.entries@, degree as int),
            r matches Some(a) ==> exists|i: int|
                is_floor_entry(self.entries@, degree as int, i) && a@ == self.entries@[i].1@,
    {
        let n = self.entries.len();
        let mut best: Option<usize> = None;
        let mut i: usize = 0;
        while i < n
            invariant
                i <= n,
                n == self.entries@.len(),
                best is None ==> forall|j: int| 0 <= j < i ==> #[trigger] self.entries@[j].0 >= degree,
                best matches Some(b) ==> b < i && self.entries@[b as int].0 < degree && forall|j: int|
                    0 <= j < i && #[trigger] self.entries@[j].0 < degree ==> self.entries@[j].0
                        <= self.entries@[b as int].0,
            decreases n - i,
        {
            if self.entries[i].0 < degree {
                match best {
                    Some(b) => {
                        if self.entries[b].0 < self.entries[i].0 {
                            best = Some(i);
                        }
                    },
                    None => {
                        best = Some(i);
                    },
                }
            }
            i = i + 1;
        }
        match best {
            Some(b) => {
                assert(is_floor_entry(self.entries@, degree as int, b as int));
                Some(self.entries[b].1.clone())
            },
            None => None,
        }
    }
}

} // verus!
