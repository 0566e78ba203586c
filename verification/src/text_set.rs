//! A set of texts.

use crate::text::same_text;
use vstd::prelude::*;

verus! {

/// A set of texts that a process keeps for its lifetime.
pub struct TextSet {
    members: Vec<String>,
}

impl View for TextSet {
    type V = Set<Seq<char>>;

    closed spec fn view(&self) -> Set<Seq<char>> {
        members_of(self.members@)
    }
}

spec fn members_of(members: Seq<String>) -> Set<Seq<char>> {
    Set::new(|text: Seq<char>| exists|i: int| 0 <= i < members.len() && #[trigger] members[i]@ == text)
}

impl TextSet {
    /// The empty set.
    pub fn new() -> (set: Self)
        ensures
            set@ == Set::<Seq<char>>::empty(),
    {
        let set = TextSet { members: Vec::new() };
        assert(set@ =~= Set::<Seq<char>>::empty());
        set
    }

    /// Whether a text is in the set.
    pub fn contains(&self, text: &str) -> (found: bool)
        ensures
            found == self@.contains(text@),
    {
        let mut i: usize = 0;
        while i < self.members.len()
            invariant
                i <= self.members@.len(),
                forall|k: int| 0 <= k < i ==> (#[trigger] self.members@[k])@ != text@,
            decreases self.members@.len() - i,
        {
            if same_text(self.members[i].as_str(), text) {
                assert(self.members@[i as int]@ == text@);
                return true;
            }
            i += 1;
        }
        false
    }

    /// Adds a text. Tells whether it was new.
    pub fn insert(&mut self, text: String) -> (added: bool)
        ensures
            added == !old(self)@.contains(text@),
            final(self)@ == old(self)@.insert(text@),
    {
        if self.contains(text.as_str()) {
            assert(self@ =~= self@.insert(text@));
            return false;
        }
        let ghost before = self.members@;
        self.members.push(text);
        assert forall|t: Seq<char>| members_of(self.members@).contains(t) <==> members_of(
            before,
        ).insert(text@).contains(t) by {
            if members_of(before).contains(t) {
                let i = choose|i: int| 0 <= i < before.len() && #[trigger] before[i]@ == t;
                assert(self.members@[i]@ == t);
            }
            if t == text@ {
                assert(self.members@[before.len() as int]@ == t);
            }
            if members_of(self.members@).contains(t) {
                let i = choose|i: int|
                    0 <= i < self.members@.len() && #[trigger] self.members@[i]@ == t;
                if i < before.len() {
                    assert(before[i]@ == t);
                }
            }
        }
        assert(members_of(self.members@) =~= members_of(before).insert(text@));
        true
    }

    /// Takes a text out. Tells whether it was there.
    pub fn remove(&mut self, text: &str) -> (removed: bool)
        ensures
            removed == old(self)@.contains(text@),
            final(self)@ == old(self)@.remove(text@),
    {
        let removed = self.contains(text);
        let ghost before = self.members@;
        let mut kept: Vec<String> = Vec::new();
        let mut i: usize = 0;
        while i < self.members.len()
            invariant
                i <= self.members@.len(),
                self.members@ == before,
                forall|k: int|
                    0 <= k < kept@.len() ==> members_of(before).contains(
                        (#[trigger] kept@[k])@,
                    ) && kept@[k]@ != text@,
                forall|k: int|
                    0 <= k < i && (#[trigger] before[k])@ != text@ ==> members_of(kept@).contains(
                        before[k]@,
                    ),
            decreases self.members@.len() - i,
        {
            if !same_text(self.members[i].as_str(), text) {
                let ghost earlier = kept@;
                let member = self.members[i].clone();
                kept.push(member);
                assert(before[i as int]@ == member@);
                assert forall|k: int|
                    0 <= k < i + 1 && (#[trigger] before[k])@ != text@ implies members_of(
                    kept@,
                ).contains(before[k]@) by {
                    if k == i {
                        assert(kept@[earlier.len() as int]@ == before[k]@);
                    } else {
                        assert(members_of(earlier).contains(before[k]@));
                        let m = choose|m: int|
                            0 <= m < earlier.len() && #[trigger] earlier[m]@ == before[k]@;
                        assert(kept@[m]@ == before[k]@);
                    }
                }
            }
            i += 1;
        }
        self.members = kept;
        assert(members_of(self.members@) =~= members_of(before).remove(text@));
        removed
    }
}

} // verus!
