use vstd::prelude::*;

verus! {

/// A priority level: an identifier that the store assigns, and a unique label.
pub struct PriorityLevel {
    pub id: i32,
    pub label: String,
}

/// The mathematical form of a priority level.
pub struct LevelModel {
    pub id: int,
    pub label: Seq<char>,
}

impl View for PriorityLevel {
    type V = LevelModel;

    open spec fn view(&self) -> LevelModel {
        LevelModel { id: self.id as int, label: self.label@ }
    }
}

/// The labels written into an empty catalog, in the order they are inserted.
pub open spec fn default_labels() -> Seq<Seq<char>> {
    seq!["Urgente"@, "Medio"@, "Bajo"@]
}

/// Levels numbered 1, 2, 3, ... in the order of their labels.
pub open spec fn levels_from_labels(labels: Seq<Seq<char>>) -> Seq<LevelModel> {
    Seq::new(labels.len(), |i: int| LevelModel { id: i + 1, label: labels[i] })
}

pub open spec fn labels_unique(levels: Seq<LevelModel>) -> bool {
    forall|i: int, j: int|
        0 <= i < levels.len() && 0 <= j < levels.len() && i != j ==> levels[i].label
            != levels[j].label
}

/// Identifiers are positive and pairwise distinct; no two levels share a label.
pub open spec fn levels_wf(levels: Seq<LevelModel>) -> bool {
    &&& forall|i: int| 0 <= i < levels.len() ==> #[trigger] levels[i].id >= 1
    &&& forall|i: int, j: int|
        0 <= i < levels.len() && 0 <= j < levels.len() && i != j ==> levels[i].id != levels[j].id
    &&& labels_unique(levels)
}

/// Some level carries the identifier `id`.
pub open spec fn has_level(levels: Seq<LevelModel>, id: int) -> bool {
    exists|i: int| 0 <= i < levels.len() && #[trigger] levels[i].id == id
}

/// Some level carries the identifier `id` and the label `label`.
pub open spec fn labelled(levels: Seq<LevelModel>, id: int, label: Seq<char>) -> bool {
    exists|i: int| 0 <= i < levels.len() && #[trigger] levels[i].id == id && levels[i].label == label
}

/// The label of the level whose identifier is `id`.
pub open spec fn label_of(levels: Seq<LevelModel>, id: int) -> Seq<char> {
    levels[choose|i: int| 0 <= i < levels.len() && #[trigger] levels[i].id == id].label
}

/// What seeding inserts into a catalog that holds `existing` levels.
pub open spec fn seed_plan_spec(existing: int) -> Seq<Seq<char>> {
    if existing == 0 {
        default_labels()
    } else {
        Seq::empty()
    }
}

/// The catalog after seeding: the defaults if it was empty, else as it was.
pub open spec fn seeded(levels: Seq<LevelModel>) -> Seq<LevelModel> {
    if levels.len() == 0 {
        levels_from_labels(default_labels())
    } else {
        levels
    }
}

pub open spec fn string_views(v: Seq<String>) -> Seq<Seq<char>> {
    v.map_values(|s: String| s@)
}

pub proof fn lemma_default_labels_distinct()
    ensures
        default_labels().len() == 3,
        forall|i: int, j: int|
            0 <= i < 3 && 0 <= j < 3 && i != j ==> default_labels()[i] != default_labels()[j],
{
    reveal_strlit("Urgente");
    reveal_strlit("Medio");
    reveal_strlit("Bajo");
    assert(default_labels()[0].len() == 7);
    assert(default_labels()[1].len() == 5);
    assert(default_labels()[2].len() == 4);
}

/// The default labels, in the order they are inserted.
pub fn default_label_list() -> (r: Vec<String>)
    ensures
        string_views(r@) == default_labels(),
{
    let mut r: Vec<String> = Vec::new();
    r.push(String::from_str("Urgente"));
    r.push(String::from_str("Medio"));
    r.push(String::from_str("Bajo"));
    assert(string_views(r@) =~= default_labels());
    r
}

/// The labels that seeding inserts into a catalog holding `existing` levels:
/// the defaults when it is empty, nothing otherwise.
pub fn seed_plan(existing: u64) -> (r: Vec<String>)
    ensures
        string_views(r@) == seed_plan_spec(existing as int),
{
    if existing == 0 {
        default_label_list()
    } else {
        let r: Vec<String> = Vec::new();
        assert(string_views(r@) =~= Seq::<Seq<char>>::empty());
        r
    }
}

/// The table of priority levels.
pub struct Catalog {
    pub levels: Vec<PriorityLevel>,
}

impl View for Catalog {
    type V = Seq<LevelModel>;

    open spec fn view(&self) -> Seq<LevelModel> {
        self.levels@.map_values(|l: PriorityLevel| l@)
    }
}

impl Catalog {
    pub open spec fn wf(&self) -> bool {
        levels_wf(self@)
    }

    /// An empty catalog.
    pub fn new() -> (r: Catalog)
        ensures
            r.wf(),
            r@ == Seq::<LevelModel>::empty(),
    {
        let r = Catalog { levels: Vec::new() };
        assert(r@ =~= Seq::<LevelModel>::empty());
        r
    }

    /// The number of levels.
    pub fn count(&self) -> (r: u64)
        ensures
            r == self@.len(),
    {
        self.levels.len() as u64
    }

    /// The position of the level whose identifier is `id`.
    fn position(&self, id: i32) -> (r: Option<usize>)
        requires
            self.wf(),
        ensures
            r is None <==> !has_level(self@, id as int),
            r matches Some(i) ==> i < self@.len() && self@[i as int].id == id,
            r matches Some(i) ==> (choose|j: int| 0 <= j < self@.len() && #[trigger] self@[j].id == id)
                == i,
    {
        let mut i: usize = 0;
        while i < self.levels.len()
            invariant
                self.wf(),
                i <= self@.len(),
                forall|j: int| 0 <= j < i ==> #[trigger] self@[j].id != id,
            decreases self@.len() - i,
        {
            assert(self@[i as int] == self.levels@[i as int]@);
            if self.levels[i].id == id {
                proof {
                    assert(self@[i as int].id == id);
                    let c = choose|j: int| 0 <= j < self@.len() && #[trigger] self@[j].id == id;
                    assert(self@[c].id == id);
                }
                return Some(i);
            }
            i = i + 1;
        }
        None
    }

    /// Whether a level carries the identifier `id`.
    pub fn contains(&self, id: i32) -> (r: bool)
        requires
            self.wf(),
        ensures
            r == has_level(self@, id as int),
    {
        self.position(id).is_some()
    }

    /// The label of the level whose identifier is `id`, if there is one.
    pub fn label(&self, id: i32) -> (r: Option<String>)
        requires
            self.wf(),
        ensures
            r is None <==> !has_level(self@, id as int),
            r matches Some(s) ==> s@ == label_of(self@, id as int),
            r matches Some(s) ==> labelled(self@, id as int, s@),
    {
        match self.position(id) {
            Some(i) => {
                assert(self@[i as int] == self.levels@[i as int]@);
                Some(self.levels[i].label.clone())
            },
            None => None,
        }
    }

    /// Seeds an empty catalog with the default labels, in order; leaves a
    /// catalog that holds any level as it is.
    pub fn ensure_seeded(&mut self)
        requires
            old(self).wf(),
        ensures
            final(self).wf(),
            final(self)@ == seeded(old(self)@),
    {
        let plan = seed_plan(self.count());
        let ghost start = self@;
        proof {
            lemma_default_labels_distinct();
        }
        let mut k: usize = 0;
        while k < plan.len()
            invariant
                self.wf(),
                string_views(plan@) == seed_plan_spec(start.len() as int),
                k <= plan.len(),
                default_labels().len() == 3,
                forall|i: int, j: int|
                    0 <= i < 3 && 0 <= j < 3 && i != j ==> default_labels()[i]
                        != default_labels()[j],
                start.len() == 0 ==> self@ == levels_from_labels(default_labels().take(k as int)),
                start.len() != 0 ==> self@ == start,
            decreases plan.len() - k,
        {
            assert(string_views(plan@)[k as int] == plan@[k as int]@);
            assert(string_views(plan@).len() == plan@.len());
            assert(start.len() == 0);
            assert(self@.len() == k);
            let label = plan[k].clone();
            let ghost before = self@;
            let id: i32 = (k + 1) as i32;
            self.levels.push(PriorityLevel { id, label });
            k = k + 1;
            assert(self@ =~= before.push(LevelModel { id: k as int, label: default_labels()[k - 1] }));
            assert(self@ =~= levels_from_labels(default_labels().take(k as int)));
        }
        proof {
            if start.len() == 0 {
                assert(default_labels().take(3) =~= default_labels());
            }
        }
    }
}

} // verus!
