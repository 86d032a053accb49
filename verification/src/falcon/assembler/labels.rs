//! The assembler's symbol table: label names and their addresses.
use vstd::prelude::*;

verus! {

/// The address bound to `k` by the latest entry for it in `ls`.
pub open spec fn lookup(ls: Seq<(Seq<char>, u32)>, k: Seq<char>) -> Option<u32>
    decreases ls.len(),
{
    if ls.len() == 0 {
        None
    } else if ls.last().0 == k {
        Some(ls.last().1)
    } else {
        lookup(ls.drop_last(), k)
    }
}

/// Labels in the order they were defined; a later definition of a name
/// replaces an earlier one.
pub struct Labels {
    entries: Vec<(Vec<char>, u32)>,
}

impl View for Labels {
    type V = Seq<(Seq<char>, u32)>;

    closed spec fn view(&self) -> Seq<(Seq<char>, u32)> {
        self.entries@.map_values(|e: (Vec<char>, u32)| (e.0@, e.1))
    }
}

impl Labels {
    pub fn new() -> (l: Self)
        ensures
            l@ == Seq::<(Seq<char>, u32)>::empty(),
    {
        let l = Labels { entries: Vec::new() };
        assert(l@ =~= Seq::<(Seq<char>, u32)>::empty());
        l
    }

    /// Binds `name` to `addr`.
    pub fn insert(&mut self, name: Vec<char>, addr: u32)
        ensures
            final(self)@ == old(self)@.push((name@, addr)),
    {
        self.entries.push((name, addr));
        assert(self@ =~= old(self)@.push((name@, addr)));
    }

    /// The address bound to `name`, if any.
    pub fn get(&self, name: &[char]) -> (r: Option<u32>)
        ensures
            r == lookup(self@, name@),
    {
        let mut i = self.entries.len();
        assert(self@.subrange(0, i as int) =~= self@);
        while i > 0
            invariant
                i <= self@.len(),
                self@.len() == self.entries@.len(),
                lookup(self@, name@) == lookup(self@.subrange(0, i as int), name@),
            decreases i,
        {
            let ghost pre = self@.subrange(0, i as int);
            assert(pre.drop_last() =~= self@.subrange(0, i - 1));
            let e = &self.entries[i - 1];
            if e.0.len() == name.len() {
                let mut j: usize = 0;
                let mut same = true;
                while j < name.len()
                    invariant
                        j <= name@.len(),
                        e.0@.len() == name@.len(),
                        same == (forall|k: int| 0 <= k < j ==> e.0@[k] == name@[k]),
                    decreases name@.len() - j,
                {
                    if e.0[j] != name[j] {
                        same = false;
                    }
                    j += 1;
                }
                assert(same == (e.0@ =~= name@));
                assert(self@[i - 1] == (e.0@, e.1));
                if same {
                    return Some(e.1);
                }
            }
            i -= 1;
        }
        None
    }
}

} // verus!
