use vstd::prelude::*;

verus! {

/// The number of letters a fresh strip grows to before it stops spawning.
pub const DEFAULT_MAX_LENGTH: u32 = 40;

/// The counting state of one falling strip of letters. Letters hang below the
/// strip's origin, one row per letter; each letter is named by the id of the
/// entity that carries it.
pub struct MatrixStrip {
    /// How many letters the strip has spawned so far.
    pub num_spawned: u32,
    /// How many letters the strip spawns before it stops.
    pub max_length: u32,
    /// The most recently spawned letter, if any.
    pub last_spawn: Option<u64>,
}

/// What one spawn step asks of the scene.
pub struct LetterSpawn {
    /// The row of the new letter below the strip's origin (row `k` hangs `k`
    /// units down).
    pub row: u32,
    /// The previous head letter, which starts to fade from white to green.
    pub fade: Option<u64>,
}

impl MatrixStrip {
    /// The strip after it spawned the letter `letter`.
    pub open spec fn after_spawn(self, letter: u64) -> MatrixStrip {
        MatrixStrip {
            num_spawned: (self.num_spawned + 1) as u32,
            max_length: self.max_length,
            last_spawn: Some(letter),
        }
    }

    /// The strip after it spawned each of `letters`, first to last.
    pub open spec fn after_spawns(self, letters: Seq<u64>) -> MatrixStrip
        decreases letters.len(),
    {
        if letters.len() == 0 {
            self
        } else {
            self.after_spawns(letters.drop_last()).after_spawn(letters.last())
        }
    }

    /// Whether a strip in this state has reached its length.
    pub open spec fn is_complete(self) -> bool {
        self.num_spawned >= self.max_length
    }

    /// A strip that has spawned nothing yet and grows to the default length.
    pub fn new() -> (s: MatrixStrip)
        ensures
            s.num_spawned == 0,
            s.max_length == DEFAULT_MAX_LENGTH,
            s.last_spawn is None,
    {
        MatrixStrip { num_spawned: 0, max_length: DEFAULT_MAX_LENGTH, last_spawn: None }
    }

    /// The same strip, growing to `max_length` letters.
    pub fn with_max_length(self, max_length: u32) -> (s: MatrixStrip)
        ensures
            s == (MatrixStrip { max_length, ..self }),
    {
        MatrixStrip { max_length, ..self }
    }

    /// One spawn step, taken when the strip's spawn timer fires: the letter
    /// `letter` becomes the new head, placed on the next free row, and the
    /// previous head, if any, is handed back to be faded.
    pub fn spawn(&mut self, letter: u64) -> (action: LetterSpawn)
        requires
            old(self).num_spawned < u32::MAX,
        ensures
            *final(self) == old(self).after_spawn(letter),
            action.row == old(self).num_spawned,
            action.fade == old(self).last_spawn,
    {
        let action = LetterSpawn { row: self.num_spawned, fade: self.last_spawn };
        self.num_spawned = self.num_spawned + 1;
        self.last_spawn = Some(letter);
        action
    }

    /// Whether the strip has spawned all its letters and stops spawning.
    pub fn stop_spawn(&self) -> (stop: bool)
        ensures
            stop == self.is_complete(),
    {
        self.num_spawned >= self.max_length
    }
}

/// Whether a strip is removed from the scene: it has stopped spawning and
/// holds a child list that has become empty (`children` is the length of that
/// list, `None` where the strip has none).
pub fn strip_clean(spawning: bool, children: Option<usize>) -> (despawn: bool)
    ensures
        despawn == (!spawning && children == Some(0usize)),
{
    match children {
        Some(n) => !spawning && n == 0,
        None => false,
    }
}

/// After the letters `letters` are spawned into a strip, its count has grown
/// by their number and its head is the last of them.
pub proof fn lemma_spawn_count(s: MatrixStrip, letters: Seq<u64>)
    requires
        s.num_spawned + letters.len() <= u32::MAX,
    ensures
        s.after_spawns(letters).num_spawned == s.num_spawned + letters.len(),
        s.after_spawns(letters).max_length == s.max_length,
        letters.len() == 0 ==> s.after_spawns(letters).last_spawn == s.last_spawn,
        letters.len() > 0 ==> s.after_spawns(letters).last_spawn == Some(letters.last()),
    decreases letters.len(),
{
    if letters.len() > 0 {
        lemma_spawn_count(s, letters.drop_last());
    }
}

/// Letters hang one below the other: the `k`-th letter spawned into a strip
/// (counting from 0) lands on row `num_spawned + k`, so no two letters of a
/// strip share a row; and it fades the letter spawned just before it.
pub proof fn lemma_rows_and_fades(s: MatrixStrip, letters: Seq<u64>, k: int)
    requires
        s.num_spawned + letters.len() <= u32::MAX,
        0 <= k < letters.len(),
    ensures
        s.after_spawns(letters.take(k)).num_spawned == s.num_spawned + k,
        k == 0 ==> s.after_spawns(letters.take(k)).last_spawn == s.last_spawn,
        k > 0 ==> s.after_spawns(letters.take(k)).last_spawn == Some(letters[k - 1]),
{
    lemma_spawn_count(s, letters.take(k));
    if k > 0 {
        assert(letters.take(k).last() == letters[k - 1]);
    }
}

/// A fresh strip with length `max_length` reports itself complete exactly when
/// it has spawned at least `max_length` letters.
pub proof fn lemma_stops_at_max_length(max_length: u32, letters: Seq<u64>)
    requires
        letters.len() <= u32::MAX,
    ensures
        ({
            let s = MatrixStrip { num_spawned: 0, max_length, last_spawn: None };
            s.after_spawns(letters).is_complete() <==> letters.len() >= max_length
        }),
{
    lemma_spawn_count(MatrixStrip { num_spawned: 0, max_length, last_spawn: None }, letters);
}

} // verus!
