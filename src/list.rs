use vstd::prelude::*;

verus! {

/// A credential record: a username and its password.
pub type Record = (Seq<char>, Seq<char>);

/// The password stored for `user`, looked up from the most recent record back.
pub open spec fn lookup(recs: Seq<Record>, user: Seq<char>) -> Option<Seq<char>>
    decreases recs.len(),
{
    if recs.len() == 0 {
        None
    } else if recs.last().0 == user {
        Some(recs.last().1)
    } else {
        lookup(recs.drop_last(), user)
    }
}

/// True iff some record has `user` as its username.
pub open spec fn has_user(recs: Seq<Record>, user: Seq<char>) -> bool {
    exists|i: int| 0 <= i < recs.len() && #[trigger] recs[i].0 == user
}

/// No two records share a username.
pub open spec fn keys_unique(recs: Seq<Record>) -> bool {
    forall|i: int, j: int| 0 <= i < j < recs.len() ==> #[trigger] recs[i].0 != #[trigger] recs[j].0
}

/// The records after an addition: unchanged when the username is taken, else
/// the new record appended.
pub open spec fn add_spec(recs: Seq<Record>, user: Seq<char>, pass: Seq<char>) -> Seq<Record> {
    if has_user(recs, user) {
        recs
    } else {
        recs.push((user, pass))
    }
}

/// True iff a record for `user` exists and its password is exactly `pass`.
pub open spec fn verify_spec(recs: Seq<Record>, user: Seq<char>, pass: Seq<char>) -> bool {
    lookup(recs, user) == Some(pass)
}

pub open spec fn record_view(e: (String, String)) -> Record {
    (e.0@, e.1@)
}

/// A username is present exactly when a lookup finds a password for it.
pub proof fn lemma_lookup_some(recs: Seq<Record>, user: Seq<char>)
    ensures
        (lookup(recs, user) is Some) == has_user(recs, user),
    decreases recs.len(),
{
    if recs.len() > 0 {
        let init = recs.drop_last();
        lemma_lookup_some(init, user);
        if recs.last().0 == user {
            assert(recs[recs.len() - 1].0 == user);
        } else {
            if has_user(recs, user) {
                let i = choose|i: int| 0 <= i < recs.len() && #[trigger] recs[i].0 == user;
                assert(init[i].0 == user);
            }
            if has_user(init, user) {
                let i = choose|i: int| 0 <= i < init.len() && #[trigger] init[i].0 == user;
                assert(recs[i].0 == user);
            }
        }
    }
}

/// A username that is not in the store is unknown to both the existence
/// check and the password check, whatever the password.
pub proof fn lemma_absent_user(recs: Seq<Record>, user: Seq<char>, pass: Seq<char>)
    requires
        !has_user(recs, user),
    ensures
        lookup(recs, user) is None,
        !verify_spec(recs, user, pass),
{
    lemma_lookup_some(recs, user);
}

/// Adding a new username makes its password check succeed; adding the same
/// username again is refused and keeps the first password.
pub proof fn lemma_add_then_verify(
    recs: Seq<Record>,
    user: Seq<char>,
    pass: Seq<char>,
    pass2: Seq<char>,
)
    requires
        !has_user(recs, user),
    ensures
        verify_spec(add_spec(recs, user, pass), user, pass),
        has_user(add_spec(recs, user, pass), user),
        add_spec(add_spec(recs, user, pass), user, pass2) == add_spec(recs, user, pass),
        verify_spec(add_spec(add_spec(recs, user, pass), user, pass2), user, pass),
{
    let added = recs.push((user, pass));
    assert(added.drop_last() =~= recs);
    assert(added[added.len() - 1].0 == user);
}

/// The credential store: username to password, usernames unique, records kept
/// in the order they were added.
pub struct List {
    list: Vec<(String, String)>,
}

impl View for List {
    type V = Seq<Record>;

    closed spec fn view(&self) -> Seq<Record> {
        self.list@.map_values(|e: (String, String)| record_view(e))
    }
}

impl List {
    /// The store's invariant: usernames are unique.
    pub open spec fn wf(&self) -> bool {
        keys_unique(self@)
    }

    /// An empty store.
    pub fn new() -> (r: Self)
        ensures
            r@ == Seq::<Record>::empty(),
            r.wf(),
    {
        let r = Self { list: Vec::new() };
        proof {
            assert(r@ =~= Seq::<Record>::empty());
        }
        r
    }

    /// Adds a record unless the username is taken; true iff it was added.
    pub fn add(&mut self, user: &str, pass: &str) -> (r: bool)
        ensures
            r == !has_user(old(self)@, user@),
            final(self)@ == add_spec(old(self)@, user@, pass@),
            old(self).wf() ==> final(self).wf(),
    {
        if self.check_key(user) {
            false
        } else {
            proof {
                lemma_lookup_some(self@, user@);
            }
            let ghost before = self@;
            self.list.push((String::from_str(user), String::from_str(pass)));
            proof {
                assert(self@ =~= before.push((user@, pass@)));
                assert forall|i: int, j: int| 0 <= i < j < self@.len() && old(self).wf()
                    implies #[trigger] self@[i].0 != #[trigger] self@[j].0 by {
                    if j == before.len() {
                        assert(before[i].0 != user@);
                    } else {
                        assert(before[i].0 != before[j].0);
                    }
                }
            }
            true
        }
    }

    /// True iff both the record exists and its password matches exactly.
    pub fn check(&self, user: &str, pass: &str) -> (r: bool)
        ensures
            r == verify_spec(self@, user@, pass@),
    {
        match self.get_value(user) {
            Some(v) => {
                let p = String::from_str(pass);
                *v == p
            },
            None => false,
        }
    }

    /// True iff a record with this username exists.
    pub fn check_key(&self, user: &str) -> (r: bool)
        ensures
            r == has_user(self@, user@),
    {
        proof {
            lemma_lookup_some(self@, user@);
        }
        self.get_value(user).is_some()
    }

    /// The password stored for `user`, if any.
    pub fn get_value(&self, user: &str) -> (r: Option<&String>)
        ensures
            match r {
                Some(v) => lookup(self@, user@) == Some(v@),
                None => lookup(self@, user@) is None,
            },
    {
        let key = String::from_str(user);
        let mut i: usize = self.list.len();
        proof {
            assert(self@.take(i as int) =~= self@);
        }
        while i > 0
            invariant
                i <= self.list@.len(),
                key@ == user@,
                lookup(self@, user@) == lookup(self@.take(i as int), user@),
            decreases i,
        {
            let ghost t = self@.take(i as int);
            proof {
                assert(t.drop_last() =~= self@.take(i - 1));
                assert(t.last() == record_view(self.list@[i - 1]));
            }
            if self.list[i - 1].0 == key {
                return Some(&self.list[i - 1].1);
            }
            i = i - 1;
        }
        None
    }

    /// All records, or `None` when the store is empty.
    pub fn get(&self) -> (r: Option<&Vec<(String, String)>>)
        ensures
            r is None <==> self@.len() == 0,
            r matches Some(v) ==> v@.map_values(|e: (String, String)| record_view(e)) == self@,
    {
        if self.list.len() > 0 {
            Some(&self.list)
        } else {
            None
        }
    }
}

} // verus!
