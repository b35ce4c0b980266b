use vstd::prelude::*;

verus! {

/// Whether a Unix permission mode lets the owner execute the file.
pub open spec fn owner_can_execute(mode: u32) -> bool {
    mode & 0o100u32 != 0
}

/// Tests a Unix permission mode for the owner's execute bit.
pub fn is_executable_mode(mode: u32) -> (res: bool)
    ensures
        res == owner_can_execute(mode),
{
    mode & 0o100u32 != 0
}

/// The views of name and path pairs.
pub open spec fn pair_views(v: Seq<(String, String)>) -> Seq<(Seq<char>, Seq<char>)> {
    v.map_values(|e: (String, String)| (e.0@, e.1@))
}

/// The path of the first pair whose name is `name`.
pub open spec fn first_path(pairs: Seq<(Seq<char>, Seq<char>)>, name: Seq<char>) -> Option<Seq<char>>
    decreases pairs.len(),
{
    if pairs.len() == 0 {
        None
    } else {
        match first_path(pairs.drop_last(), name) {
            Some(p) => Some(p),
            None => if pairs.last().0 == name {
                Some(pairs.last().1)
            } else {
                None
            },
        }
    }
}

proof fn lemma_first_path_prefix(pairs: Seq<(Seq<char>, Seq<char>)>, i: int, name: Seq<char>)
    requires
        0 <= i <= pairs.len(),
        first_path(pairs.take(i), name) is Some,
    ensures
        first_path(pairs, name) == first_path(pairs.take(i), name),
    decreases pairs.len(),
{
    if i == pairs.len() {
        assert(pairs.take(i) == pairs);
    } else {
        assert(pairs.drop_last().take(i) == pairs.take(i));
        lemma_first_path_prefix(pairs.drop_last(), i, name);
    }
}

/// The executables found on the search path: each name with the path where
/// it was found first.
pub struct BinCache {
    entries: Vec<(String, String)>,
}

impl View for BinCache {
    type V = Map<Seq<char>, Seq<char>>;

    closed spec fn view(&self) -> Map<Seq<char>, Seq<char>> {
        let pairs = pair_views(self.entries@);
        Map::new(|k: Seq<char>| first_path(pairs, k) is Some, |k: Seq<char>| first_path(pairs, k).unwrap())
    }
}

impl BinCache {
    /// An empty cache.
    pub fn new() -> (res: BinCache)
        ensures
            res@ == Map::<Seq<char>, Seq<char>>::empty(),
    {
        let res = BinCache { entries: Vec::new() };
        res
    }

    fn find(&self, name: &str) -> (res: Option<usize>)
        ensures
            match res {
                Some(i) => i < self.entries@.len() && first_path(pair_views(self.entries@), name@)
                    == Some(self.entries@[i as int].1@),
                None => first_path(pair_views(self.entries@), name@) is None,
            },
    {
        let key = name.to_owned();
        let n = self.entries.len();
        let ghost pairs = pair_views(self.entries@);
        for i in 0..n
            invariant
                n == self.entries@.len(),
                pairs == pair_views(self.entries@),
                key@ == name@,
                first_path(pairs.take(i as int), name@) is None,
        {
            assert(pairs.take(i + 1).drop_last() == pairs.take(i as int));
            if self.entries[i].0 == key {
                proof {
                    lemma_first_path_prefix(pairs, i + 1, name@);
                }
                return Some(i);
            }
        }
        assert(pairs.take(n as int) == pairs);
        None
    }

    /// The path recorded for `name`, if any.
    pub fn get(&self, name: &str) -> (res: Option<&String>)
        ensures
            match res {
                Some(p) => self@.dom().contains(name@) && self@[name@] == p@,
                None => !self@.dom().contains(name@),
            },
    {
        match self.find(name) {
            Some(i) => Some(&self.entries[i].1),
            None => None,
        }
    }

    /// Records `path` for `name`, unless a path is recorded for it already:
    /// the first one found stays.
    pub fn insert_if_absent(&mut self, name: String, path: String)
        ensures
            final(self)@ == if old(self)@.dom().contains(name@) {
                old(self)@
            } else {
                old(self)@.insert(name@, path@)
            },
    {
        if self.find(name.as_str()).is_some() {
            return;
        }
        let ghost before = pair_views(self.entries@);
        let ghost k = name@;
        let ghost p = path@;
        self.entries.push((name, path));
        assert(pair_views(self.entries@).drop_last() == before);
        assert forall|x: Seq<char>|
            #![auto]
            first_path(pair_views(self.entries@), x) == (if x == k {
                Some(p)
            } else {
                first_path(before, x)
            }) by {}
    }

    /// Records a directory entry found on the search path where it is a
    /// regular file that its owner may execute and its name is not recorded
    /// yet. `mode` is `None` where the entry's permissions could not be read.
    pub fn add_entry(&mut self, name: String, path: String, is_file: bool, mode: Option<u32>)
        ensures
            final(self)@ == if is_file && (mode matches Some(m) && owner_can_execute(m))
                && !old(self)@.dom().contains(name@) {
                old(self)@.insert(name@, path@)
            } else {
                old(self)@
            },
    {
        if !is_file {
            return;
        }
        match mode {
            Some(m) => {
                if is_executable_mode(m) {
                    self.insert_if_absent(name, path);
                }
            },
            None => {},
        }
    }
}

/// Only the owner's execute bit decides: two modes that agree on it are
/// judged alike, whatever their other bits (set-user-id, set-group-id,
/// sticky, the file type, the other permissions); the bit alone is
/// executable and no bits at all are not.
pub proof fn lemma_only_owner_execute_bit_counts(m: u32, n: u32)
    ensures
        m & 0o100u32 == n & 0o100u32 ==> owner_can_execute(m) == owner_can_execute(n),
        owner_can_execute(0o100u32),
        !owner_can_execute(0u32),
        owner_can_execute(m) == ((m / 64) % 2 == 1),
{
    assert(m & 0o100u32 == n & 0o100u32 ==> ((m & 0o100u32 != 0) == (n & 0o100u32 != 0))) by (bit_vector);
    assert(0o100u32 & 0o100u32 != 0) by (bit_vector);
    assert(0u32 & 0o100u32 == 0) by (bit_vector);
    assert((m & 0o100u32 != 0) == ((m / 64) % 2 == 1)) by (bit_vector);
}

} // verus!
