//! The table of all chat groups, by name.

use std::sync::Arc;
use vstd::prelude::*;
use crate::group::{Group, GroupInfo};
use crate::protocol::{arc_texts, opt_text, share};

verus! {

/// Result of creating a group.
#[derive(Debug, Clone, Copy, PartialEq, Eq, Structural)]
pub enum CreateResult {
    /// The group was created.
    Success,
    /// A group of that name already exists.
    AlreadyExists,
}

/// The groups in creation order, as text values.
pub open spec fn infos(gs: Seq<Group>) -> Seq<GroupInfo> {
    gs.map_values(|g: Group| g@)
}

/// The names of the groups, in order.
pub open spec fn names_of(gs: Seq<GroupInfo>) -> Seq<Seq<char>> {
    gs.map_values(|g: GroupInfo| g.name)
}

/// The passwords of the groups, by name; a later group overrides an earlier
/// one of the same name.
pub open spec fn password_map(gs: Seq<GroupInfo>) -> Map<Seq<char>, Option<Seq<char>>>
    decreases gs.len(),
{
    if gs.len() == 0 {
        Map::empty()
    } else {
        password_map(gs.drop_last()).insert(gs.last().name, gs.last().password)
    }
}

proof fn lemma_password_map_dom(gs: Seq<GroupInfo>, n: Seq<char>)
    ensures
        password_map(gs).contains_key(n) <==> names_of(gs).contains(n),
    decreases gs.len(),
{
    if gs.len() > 0 {
        lemma_password_map_dom(gs.drop_last(), n);
        assert(names_of(gs.drop_last()) =~= names_of(gs).drop_last());
        if names_of(gs).contains(n) && n != gs.last().name {
            let i = choose|i: int| 0 <= i < names_of(gs).len() && names_of(gs)[i] == n;
            assert(names_of(gs.drop_last())[i] == n);
        }
        if n == gs.last().name {
            assert(names_of(gs)[gs.len() - 1] == n);
        }
    } else {
        assert(!names_of(gs).contains(n));
    }
}

proof fn lemma_password_map_at(gs: Seq<GroupInfo>, i: int)
    requires
        0 <= i < gs.len(),
        names_of(gs).no_duplicates(),
    ensures
        password_map(gs).contains_key(gs[i].name),
        password_map(gs)[gs[i].name] == gs[i].password,
    decreases gs.len(),
{
    if i < gs.len() - 1 {
        assert(names_of(gs.drop_last()) =~= names_of(gs).drop_last());
        lemma_password_map_at(gs.drop_last(), i);
        assert(names_of(gs)[i] != names_of(gs)[gs.len() - 1]);
    }
}

/// The messages posted to each group, by name.
pub open spec fn posts_of(gs: Seq<Group>) -> Map<Seq<char>, Seq<Seq<char>>> {
    Map::new(
        |n: Seq<char>| exists|i: int| 0 <= i < gs.len() && gs[i]@.name == n,
        |n: Seq<char>| gs[choose|i: int| 0 <= i < gs.len() && gs[i]@.name == n].posted(),
    )
}

proof fn lemma_posts_at(gs: Seq<Group>, i: int)
    requires
        0 <= i < gs.len(),
        names_of(infos(gs)).no_duplicates(),
    ensures
        posts_of(gs).contains_key(gs[i]@.name),
        posts_of(gs)[gs[i]@.name] == gs[i].posted(),
{
    let n = gs[i]@.name;
    assert(gs[i]@.name == n);
    let j = choose|j: int| 0 <= j < gs.len() && gs[j]@.name == n;
    assert(names_of(infos(gs))[i] == n);
    assert(names_of(infos(gs))[j] == n);
}

proof fn lemma_posts_dom(gs: Seq<Group>, n: Seq<char>)
    ensures
        posts_of(gs).contains_key(n) <==> password_map(infos(gs)).contains_key(n),
{
    lemma_password_map_dom(infos(gs), n);
    if names_of(infos(gs)).contains(n) {
        let i = choose|i: int| 0 <= i < names_of(infos(gs)).len() && names_of(infos(gs))[i] == n;
        assert(gs[i]@.name == n);
    }
    if posts_of(gs).contains_key(n) {
        let i = choose|i: int| 0 <= i < gs.len() && gs[i]@.name == n;
        assert(names_of(infos(gs))[i] == n);
    }
}

/// Pushing a group of a fresh name adds its posts under its name.
proof fn lemma_posts_push(gs: Seq<Group>, g: Group)
    requires
        names_of(infos(gs.push(g))).no_duplicates(),
    ensures
        posts_of(gs.push(g)) == posts_of(gs).insert(g@.name, g.posted()),
{
    let after = gs.push(g);
    assert(names_of(infos(gs)) =~= names_of(infos(after)).drop_last());
    assert forall|n: Seq<char>| #[trigger] posts_of(after).contains_key(n) <==> posts_of(gs).insert(
        g@.name,
        g.posted(),
    ).contains_key(n) by {
        if posts_of(after).contains_key(n) && n != g@.name {
            let i = choose|i: int| 0 <= i < after.len() && after[i]@.name == n;
            assert(gs[i]@.name == n);
        }
        if posts_of(gs).contains_key(n) {
            let i = choose|i: int| 0 <= i < gs.len() && gs[i]@.name == n;
            assert(after[i]@.name == n);
        }
        if n == g@.name {
            assert(after[gs.len() as int]@.name == n);
        }
    }
    assert forall|n: Seq<char>| #[trigger] posts_of(after).contains_key(n) implies posts_of(
        after,
    )[n] == posts_of(gs).insert(g@.name, g.posted())[n] by {
        if n == g@.name {
            lemma_posts_at(after, gs.len() as int);
        } else {
            let i = choose|i: int| 0 <= i < after.len() && after[i]@.name == n;
            assert(i < gs.len());
            assert(gs[i] == after[i]);
            lemma_posts_at(after, i);
            assert(names_of(infos(gs)).no_duplicates()) by {
                assert forall|a: int, b: int|
                    0 <= a < b < names_of(infos(gs)).len() implies names_of(infos(gs))[a]
                    != names_of(infos(gs))[b] by {
                    assert(names_of(infos(gs))[a] == names_of(infos(after))[a]);
                    assert(names_of(infos(gs))[b] == names_of(infos(after))[b]);
                }
            }
            lemma_posts_at(gs, i);
        }
    }
    assert(posts_of(after) =~= posts_of(gs).insert(g@.name, g.posted()));
}

/// Replacing a group by one with the same name and password changes only the
/// posts under that name.
proof fn lemma_posts_update(before: Seq<Group>, after: Seq<Group>, i: int)
    requires
        0 <= i < before.len(),
        after == before.update(i, after[i]),
        after[i]@ == before[i]@,
        names_of(infos(before)).no_duplicates(),
    ensures
        infos(after) == infos(before),
        posts_of(after) == posts_of(before).insert(before[i]@.name, after[i].posted()),
{
    assert(infos(after) =~= infos(before)) by {
        assert forall|k: int| 0 <= k < before.len() implies infos(after)[k] == infos(before)[k] by {
            if k != i {
                assert(after[k] == before[k]);
            }
        }
    }
    let n0 = before[i]@.name;
    assert forall|n: Seq<char>| #[trigger] posts_of(after).contains_key(n) <==> posts_of(before).insert(
        n0,
        after[i].posted(),
    ).contains_key(n) by {
        lemma_posts_dom(after, n);
        lemma_posts_dom(before, n);
        lemma_posts_at(before, i);
    }
    assert forall|n: Seq<char>| #[trigger] posts_of(after).contains_key(n) implies posts_of(
        after,
    )[n] == posts_of(before).insert(n0, after[i].posted())[n] by {
        if n == n0 {
            lemma_posts_at(after, i);
        } else {
            let j = choose|j: int| 0 <= j < after.len() && after[j]@.name == n;
            assert(j != i);
            assert(after[j] == before[j]);
            lemma_posts_at(after, j);
            lemma_posts_at(before, j);
        }
    }
    assert(posts_of(after) =~= posts_of(before).insert(n0, after[i].posted()));
}

/// A table that stores all active chat groups by name.
pub struct GroupTable {
    groups: Vec<Group>,
}

impl View for GroupTable {
    type V = Map<Seq<char>, Option<Seq<char>>>;

    /// Each group's name, mapped to its optional password.
    closed spec fn view(&self) -> Map<Seq<char>, Option<Seq<char>>> {
        password_map(infos(self.groups@))
    }
}

impl GroupTable {
    #[verifier::type_invariant]
    spec fn names_distinct(&self) -> bool {
        names_of(infos(self.groups@)).no_duplicates()
    }

    /// The names of the groups, in the order they were created.
    pub closed spec fn names(&self) -> Seq<Seq<char>> {
        names_of(infos(self.groups@))
    }

    /// The messages posted to each group of the table, by name.
    pub closed spec fn posts(&self) -> Map<Seq<char>, Seq<Seq<char>>> {
        posts_of(self.groups@)
    }

    /// The names are those of the table, each once, and the posts are kept
    /// for exactly those names.
    pub open spec fn consistent(&self) -> bool {
        &&& table_consistent(self@, self.names())
        &&& self.posts().dom() == self@.dom()
    }

    proof fn lemma_consistent(&self)
        requires
            self.names_distinct(),
        ensures
            self.consistent(),
    {
        assert forall|n: Seq<char>| #[trigger] self.names().contains(n) <==> self@.contains_key(
            n,
        ) by {
            lemma_password_map_dom(infos(self.groups@), n);
        }
        assert forall|n: Seq<char>| #[trigger] self.posts().contains_key(n) <==> self@.contains_key(
            n,
        ) by {
            lemma_posts_dom(self.groups@, n);
        }
        assert(self.posts().dom() =~= self@.dom());
    }

    /// Creates a new, empty table.
    pub fn new() -> (t: GroupTable)
        ensures
            t@ == Map::<Seq<char>, Option<Seq<char>>>::empty(),
            t.names() == Seq::<Seq<char>>::empty(),
            t.consistent(),
            (t@, t.names()) == replay(Seq::<TableOp>::empty()),
            t.posts() == Map::<Seq<char>, Seq<Seq<char>>>::empty(),
    {
        let t = GroupTable { groups: Vec::new() };
        assert(t.posts() =~= Map::<Seq<char>, Seq<Seq<char>>>::empty());
        assert(infos(t.groups@) =~= Seq::<GroupInfo>::empty());
        assert(t.names() =~= Seq::<Seq<char>>::empty());
        proof {
            t.lemma_consistent();
        }
        t
    }

    /// The position of the group named `name`, if there is one.
    fn find(&self, name: &String) -> (r: Option<usize>)
        ensures
            match r {
                Some(i) => i < self.groups.len() && self.groups@[i as int]@.name == name@
                    && self.names().contains(name@),
                None => !self.names().contains(name@),
            },
    {
        let mut i: usize = 0;
        while i < self.groups.len()
            invariant
                0 <= i <= self.groups.len(),
                forall|j: int| 0 <= j < i ==> self.names()[j] != name@,
            decreases self.groups.len() - i,
        {
            if *self.groups[i].name() == *name {
                assert(self.names()[i as int] == name@);
                return Some(i);
            }
            i = i + 1;
        }
        proof {
            if self.names().contains(name@) {
                let j = choose|j: int| 0 <= j < self.names().len() && self.names()[j] == name@;
                assert(self.names()[j] == name@);
            }
        }
        None
    }

    /// Retrieves a group by name, if it exists.
    pub fn get(&self, name: &String) -> (r: Option<&Group>)
        ensures
            self.consistent(),
            r is Some <==> self@.contains_key(name@),
            r matches Some(g) ==> g@.name == name@ && g@.password == self@[name@] && g.posted()
                == self.posts()[name@],
    {
        proof {
            use_type_invariant(self);
            self.lemma_consistent();
        }
        match self.find(name) {
            Some(i) => {
                proof {
                    lemma_password_map_at(infos(self.groups@), i as int);
                    lemma_posts_at(self.groups@, i as int);
                }
                Some(&self.groups[i])
            },
            None => None,
        }
    }

    /// Whether a group of that name exists.
    pub fn contains(&self, name: &String) -> (b: bool)
        ensures
            b == self@.contains_key(name@),
    {
        proof {
            use_type_invariant(self);
            self.lemma_consistent();
        }
        self.find(name).is_some()
    }

    fn add(&mut self, g: Group)
        requires
            !old(self).names().contains(g@.name),
        ensures
            final(self)@ == old(self)@.insert(g@.name, g@.password),
            final(self).names() == old(self).names().push(g@.name),
            final(self).consistent(),
            final(self).groups@.len() == old(self).groups@.len() + 1,
            final(self).groups@.last()@ == g@,
            final(self).posts() == old(self).posts().insert(g@.name, g.posted()),
    {
        proof {
            use_type_invariant(&*self);
        }
        let ghost before = infos(self.groups@);
        let ghost gv = g@;
        let ghost old_groups = self.groups@;
        let ghost gg = g;
        let mut gs: Vec<Group> = Vec::new();
        proof {
            assert(names_of(infos(gs@)) =~= Seq::<Seq<char>>::empty());
        }
        std::mem::swap(&mut gs, &mut self.groups);
        gs.push(g);
        proof {
            assert(infos(gs@) =~= before.push(gv));
            assert(names_of(infos(gs@)) =~= names_of(before).push(gv.name));
            assert(names_of(infos(gs@)).no_duplicates()) by {
                assert forall|i: int, j: int|
                    0 <= i < j < names_of(infos(gs@)).len() implies names_of(infos(gs@))[i]
                    != names_of(infos(gs@))[j] by {
                    if j == names_of(before).len() {
                        assert(names_of(before)[i] == names_of(infos(gs@))[i]);
                    }
                }
            }
        }
        self.groups = gs;
        proof {
            assert(infos(self.groups@).drop_last() =~= before);
            assert(self.groups@ =~= old_groups.push(gg));
            lemma_posts_push(old_groups, gg);
            self.lemma_consistent();
        }
    }

    /// Creates a new group if none of that name exists yet.
    ///
    /// Returns `Success` if the group was created, `AlreadyExists` (leaving
    /// the table as it was) if a group of that name already exists.
    pub fn create(&mut self, name: Arc<String>, password: Option<Arc<String>>) -> (r: CreateResult)
        ensures
            old(self).consistent(),
            final(self).consistent(),
            old(self)@.contains_key(name@) ==> r == CreateResult::AlreadyExists && final(self)@
                == old(self)@ && final(self).names() == old(self).names(),
            !old(self)@.contains_key(name@) ==> r == CreateResult::Success && final(self)@ == old(
                self,
            )@.insert(name@, opt_text(password)) && final(self).names() == old(self).names().push(
                name@,
            ),
            (final(self)@, final(self).names()) == apply_op(
                old(self)@,
                old(self).names(),
                TableOp::Create(name@, opt_text(password)),
            ),
            final(self).posts() == if old(self)@.contains_key(name@) {
                old(self).posts()
            } else {
                old(self).posts().insert(name@, Seq::<Seq<char>>::empty())
            },
    {
        proof {
            use_type_invariant(&*self);
            self.lemma_consistent();
        }
        if self.find(&*name).is_some() {
            CreateResult::AlreadyExists
        } else {
            let g = Group::new(name, password);
            self.add(g);
            CreateResult::Success
        }
    }

    /// Lists all group names in the table, in the order they were created.
    pub fn list_groups(&self) -> (r: Vec<Arc<String>>)
        ensures
            arc_texts(r@) == self.names(),
            self.consistent(),
    {
        proof {
            use_type_invariant(self);
            self.lemma_consistent();
        }
        let mut r: Vec<Arc<String>> = Vec::new();
        let mut i: usize = 0;
        while i < self.groups.len()
            invariant
                0 <= i <= self.groups.len(),
                arc_texts(r@) == self.names().take(i as int),
            decreases self.groups.len() - i,
        {
            let ghost before = r@;
            r.push(share(self.groups[i].name()));
            assert(arc_texts(r@) =~= arc_texts(before).push(self.names()[i as int]));
            assert(self.names().take(i + 1) =~= self.names().take(i as int).push(
                self.names()[i as int],
            ));
            i = i + 1;
        }
        assert(self.names().take(self.groups.len() as int) =~= self.names());
        r
    }

    /// Retrieves a group by name, or creates one without a password if it
    /// doesn't exist.
    pub fn get_or_create(&mut self, name: Arc<String>) -> (g: &Group)
        ensures
            old(self).consistent(),
            final(self).consistent(),
            g@.name == name@,
            old(self)@.contains_key(name@) ==> final(self)@ == old(self)@ && final(self).names()
                == old(self).names() && g@.password == old(self)@[name@],
            !old(self)@.contains_key(name@) ==> final(self)@ == old(self)@.insert(name@, None)
                && final(self).names() == old(self).names().push(name@) && g@.password is None,
            (final(self)@, final(self).names()) == apply_op(
                old(self)@,
                old(self).names(),
                TableOp::GetOrCreate(name@),
            ),
            final(self).posts() == if old(self)@.contains_key(name@) {
                old(self).posts()
            } else {
                old(self).posts().insert(name@, Seq::<Seq<char>>::empty())
            },
            g.posted() == final(self).posts()[name@],
    {
        proof {
            use_type_invariant(&*self);
            self.lemma_consistent();
        }
        match self.find(&*name) {
            Some(i) => {
                proof {
                    lemma_password_map_at(infos(self.groups@), i as int);
                    lemma_posts_at(self.groups@, i as int);
                }
                &self.groups[i]
            },
            None => {
                let g = Group::new(name, None);
                self.add(g);
                let last = self.groups.len() - 1;
                proof {
                    use_type_invariant(&*self);
                    lemma_posts_at(self.groups@, last as int);
                }
                &self.groups[last]
            },
        }
    }

    /// Posts a message to the group of that name, if there is one; says
    /// whether there was. Only that group's posts change.
    pub fn post_to(&mut self, name: &String, message: Arc<String>) -> (found: bool)
        ensures
            old(self).consistent(),
            found == old(self)@.contains_key(name@),
            final(self)@ == old(self)@,
            final(self).names() == old(self).names(),
            final(self).consistent(),
            final(self).posts() == if found {
                old(self).posts().insert(name@, old(self).posts()[name@].push(message@))
            } else {
                old(self).posts()
            },
    {
        proof {
            use_type_invariant(&*self);
            self.lemma_consistent();
        }
        match self.find(name) {
            Some(i) => {
                let ghost before = self.groups@;
                proof {
                    lemma_posts_at(before, i as int);
                }
                let mut gs: Vec<Group> = Vec::new();
                proof {
                    assert(names_of(infos(gs@)) =~= Seq::<Seq<char>>::empty());
                }
                std::mem::swap(&mut gs, &mut self.groups);
                gs[i].post(message);
                proof {
                    lemma_posts_update(before, gs@, i as int);
                    assert(names_of(infos(gs@)) == names_of(infos(before)));
                }
                self.groups = gs;
                proof {
                    self.lemma_consistent();
                }
                true
            },
            None => {
                proof {
                    lemma_password_map_dom(infos(self.groups@), name@);
                }
                false
            },
        }
    }
}

impl Default for GroupTable {
    fn default() -> (t: GroupTable)
        ensures
            t@ == Map::<Seq<char>, Option<Seq<char>>>::empty(),
            t.names() == Seq::<Seq<char>>::empty(),
    {
        GroupTable::new()
    }
}

/// The group names are those of the table, each once.
pub open spec fn table_consistent(table: Map<Seq<char>, Option<Seq<char>>>, names: Seq<Seq<char>>) -> bool {
    &&& names.no_duplicates()
    &&& forall|n: Seq<char>| #[trigger] names.contains(n) <==> table.contains_key(n)
}

/// Adding a fresh name to a consistent table and to the end of its list keeps
/// them consistent.
pub proof fn lemma_push_fresh(
    table: Map<Seq<char>, Option<Seq<char>>>,
    names: Seq<Seq<char>>,
    n: Seq<char>,
    p: Option<Seq<char>>,
)
    requires
        table_consistent(table, names),
    ensures
        !table.contains_key(n) ==> table_consistent(table.insert(n, p), names.push(n)),
{
    if !table.contains_key(n) {
        let t2 = table.insert(n, p);
        let ns = names.push(n);
        assert(ns.no_duplicates()) by {
            assert forall|i: int, j: int| 0 <= i < ns.len() && 0 <= j < ns.len() && i != j implies ns[i]
                != ns[j] by {
                if i < names.len() && j < names.len() {
                } else if i < names.len() {
                    assert(names.contains(names[i]));
                } else {
                    assert(names.contains(names[j]));
                }
            }
        }
        assert forall|m: Seq<char>| #[trigger] ns.contains(m) <==> t2.contains_key(m) by {
            if ns.contains(m) && m != n {
                let i = choose|i: int| 0 <= i < ns.len() && ns[i] == m;
                assert(names[i] == m);
            }
            if names.contains(m) {
                let i = choose|i: int| 0 <= i < names.len() && names[i] == m;
                assert(ns[i] == m);
            }
            if m == n {
                assert(ns[names.len() as int] == m);
            }
        }
    }
}

/// A call that adds groups to a table: `create` with a password, or
/// `get_or_create`.
pub enum TableOp {
    Create(Seq<char>, Option<Seq<char>>),
    GetOrCreate(Seq<char>),
}

/// The name a call asks for.
pub open spec fn op_name(op: TableOp) -> Seq<char> {
    match op {
        TableOp::Create(n, _) => n,
        TableOp::GetOrCreate(n) => n,
    }
}

/// The password a call gives a group it creates.
pub open spec fn op_password(op: TableOp) -> Option<Seq<char>> {
    match op {
        TableOp::Create(_, p) => p,
        TableOp::GetOrCreate(_) => None,
    }
}

/// The table and its name list after one call: a group of a new name is added
/// with the call's password and listed last; a known name changes nothing.
pub open spec fn apply_op(
    table: Map<Seq<char>, Option<Seq<char>>>,
    names: Seq<Seq<char>>,
    op: TableOp,
) -> (Map<Seq<char>, Option<Seq<char>>>, Seq<Seq<char>>) {
    if table.contains_key(op_name(op)) {
        (table, names)
    } else {
        (table.insert(op_name(op), op_password(op)), names.push(op_name(op)))
    }
}

/// The table and its name list after `new` and then the calls `ops`.
pub open spec fn replay(ops: Seq<TableOp>) -> (Map<Seq<char>, Option<Seq<char>>>, Seq<Seq<char>>)
    decreases ops.len(),
{
    if ops.len() == 0 {
        (Map::empty(), Seq::empty())
    } else {
        let r = replay(ops.drop_last());
        apply_op(r.0, r.1, ops.last())
    }
}

/// Whether some call of `ops` asks for `n`.
pub open spec fn names_used(ops: Seq<TableOp>, n: Seq<char>) -> bool {
    exists|i: int| 0 <= i < ops.len() && op_name(ops[i]) == n
}

/// A table built by `new` and calls of `create` and `get_or_create` has a
/// group of a name exactly when some call asked for that name; the group keeps
/// the password of the first call that asked for it, whatever later calls
/// ask.
#[verifier::rlimit(40)]
pub proof fn law_table_after_calls(ops: Seq<TableOp>, n: Seq<char>)
    ensures
        replay(ops).0.contains_key(n) <==> names_used(ops, n),
        forall|i: int|
            0 <= i < ops.len() && op_name(ops[i]) == n && (forall|j: int|
                0 <= j < i ==> op_name(ops[j]) != n) ==> replay(ops).0[n] == op_password(
                #[trigger] ops[i],
            ),
    decreases ops.len(),
{
    if ops.len() > 0 {
        let front = ops.drop_last();
        let last = ops.last();
        law_table_after_calls(front, n);
        if names_used(front, n) {
            let i = choose|i: int| 0 <= i < front.len() && op_name(front[i]) == n;
            assert(op_name(ops[i]) == n);
        }
        if op_name(last) == n {
            assert(op_name(ops[ops.len() - 1]) == n);
        }
        if names_used(ops, n) && op_name(last) != n {
            let i = choose|i: int| 0 <= i < ops.len() && op_name(ops[i]) == n;
            assert(i < front.len());
            assert(op_name(front[i]) == n);
        }
        assert forall|i: int|
            0 <= i < ops.len() && op_name(ops[i]) == n && (forall|j: int|
                0 <= j < i ==> op_name(ops[j]) != n) implies replay(ops).0[n] == op_password(
            #[trigger] ops[i],
        ) by {
            if i < front.len() {
                assert(front[i] == ops[i]);
                assert forall|j: int| 0 <= j < i implies op_name(front[j]) != n by {
                    assert(front[j] == ops[j]);
                }
                assert(op_name(front[i]) == n);
            } else {
                assert(i == ops.len() - 1);
                if names_used(front, n) {
                    let k = choose|k: int| 0 <= k < front.len() && op_name(front[k]) == n;
                    assert(op_name(ops[k]) == n);
                }
            }
        }
    }
}

/// The list of a table built by `new` and calls of `create` and
/// `get_or_create` holds each name that some call asked for, once; in
/// particular a new table lists no group.
pub proof fn law_list_after_calls(ops: Seq<TableOp>)
    ensures
        table_consistent(replay(ops).0, replay(ops).1),
        replay(ops).1.no_duplicates(),
        forall|n: Seq<char>| #[trigger] replay(ops).1.contains(n) <==> names_used(ops, n),
        replay(Seq::<TableOp>::empty()).1.len() == 0,
    decreases ops.len(),
{
    if ops.len() > 0 {
        let r = replay(ops.drop_last());
        law_list_after_calls(ops.drop_last());
        lemma_push_fresh(r.0, r.1, op_name(ops.last()), op_password(ops.last()));
    } else {
        assert(table_consistent(Map::empty(), Seq::empty()));
    }
    assert forall|n: Seq<char>| #[trigger] replay(ops).1.contains(n) <==> names_used(ops, n) by {
        law_table_after_calls(ops, n);
    }
}

/// `get_or_create` twice on a consistent table makes the group at most once:
/// the second call changes nothing, a group that existed (even one created
/// with a password) is kept as it was, and the name is listed exactly once.
pub proof fn law_get_or_create_twice(
    table: Map<Seq<char>, Option<Seq<char>>>,
    names: Seq<Seq<char>>,
    n: Seq<char>,
)
    requires
        table_consistent(table, names),
    ensures
        ({
            let once = apply_op(table, names, TableOp::GetOrCreate(n));
            let twice = apply_op(once.0, once.1, TableOp::GetOrCreate(n));
            &&& twice == once
            &&& once.0.contains_key(n)
            &&& table.contains_key(n) ==> once == (table, names)
            &&& table_consistent(once.0, once.1)
            &&& once.1.contains(n)
            &&& forall|i: int, j: int|
                0 <= i < once.1.len() && 0 <= j < once.1.len() && once.1[i] == n && once.1[j] == n
                    ==> i == j
        }),
{
    lemma_push_fresh(table, names, n, None);
}

} // verus!
