//! The names that the shell can complete, and those among them that begin
//! with what has been typed.

use vstd::prelude::*;
use crate::builtins::builtin_name_list;
use crate::builtins::builtin_names;
use crate::order::ascending;
use crate::order::lemma_ordered_sorts;
use crate::order::ordered;
use crate::order::sort_strings;
use crate::text::chars_of;
use crate::text::chars_start_with;

verus! {

/// A list without the strings that stand in it a second time.
pub open spec fn distinct(s: Seq<Seq<char>>) -> Seq<Seq<char>>
    decreases s.len(),
{
    if s.len() == 0 {
        s
    } else {
        let before = distinct(s.drop_last());
        if before.contains(s.last()) {
            before
        } else {
            before.push(s.last())
        }
    }
}

/// No string stands twice in such a list, and it holds the strings that the
/// list was made of.
pub proof fn lemma_distinct(s: Seq<Seq<char>>)
    ensures
        distinct(s).no_duplicates(),
        forall|x: Seq<char>|
            #![trigger s.contains(x)]
            #![trigger distinct(s).contains(x)]
            s.contains(x) <==> distinct(s).contains(x),
    decreases s.len(),
{
    if s.len() > 0 {
        let head = s.drop_last();
        let before = distinct(head);
        lemma_distinct(head);
        let d = distinct(s);
        assert forall|x: Seq<char>| s.contains(x) <==> d.contains(x) by {
            if s.contains(x) {
                let i = choose|i: int| 0 <= i < s.len() && s[i] == x;
                if i < head.len() {
                    assert(head[i] == x);
                    assert(head.contains(x));
                    let j = choose|j: int| 0 <= j < before.len() && before[j] == x;
                    assert(d[j] == x);
                } else if before.contains(x) {
                } else {
                    assert(d[d.len() - 1] == x);
                }
            }
            if d.contains(x) {
                let j = choose|j: int| 0 <= j < d.len() && d[j] == x;
                if j < before.len() {
                    assert(before[j] == x);
                    assert(before.contains(x));
                    let i = choose|i: int| 0 <= i < head.len() && head[i] == x;
                    assert(s[i] == x);
                } else {
                    assert(s[s.len() - 1] == x);
                }
            }
        }
    }
}

/// The names that can be completed: those of the builtins and those of the
/// programs, each once.
pub open spec fn known_names(programs: Seq<Seq<char>>) -> Seq<Seq<char>> {
    distinct(builtin_name_list() + programs)
}

/// The strings of a list that begin with `prefix`, in the order of the list.
pub open spec fn matching(names: Seq<Seq<char>>, prefix: Seq<char>) -> Seq<Seq<char>>
    decreases names.len(),
{
    if names.len() == 0 {
        names
    } else {
        let before = matching(names.drop_last(), prefix);
        if prefix.is_prefix_of(names.last()) {
            before.push(names.last())
        } else {
            before
        }
    }
}

/// The strings of a list that begin with `prefix`, sorted.
pub open spec fn candidates(names: Seq<Seq<char>>, prefix: Seq<char>) -> Seq<Seq<char>> {
    ordered(matching(names, prefix))
}

/// What matches is what the list holds and begins with the prefix.
pub proof fn lemma_matching(names: Seq<Seq<char>>, prefix: Seq<char>)
    ensures
        forall|x: Seq<char>|
            #![trigger names.contains(x)]
            #![trigger matching(names, prefix).contains(x)]
            matching(names, prefix).contains(x) <==> names.contains(x) && prefix.is_prefix_of(x),
    decreases names.len(),
{
    if names.len() > 0 {
        let head = names.drop_last();
        let before = matching(head, prefix);
        let m = matching(names, prefix);
        lemma_matching(head, prefix);
        assert forall|x: Seq<char>| m.contains(x) <==> names.contains(x) && prefix.is_prefix_of(
            x,
        ) by {
            if m.contains(x) {
                let j = choose|j: int| 0 <= j < m.len() && m[j] == x;
                if j < before.len() {
                    assert(before[j] == x);
                    assert(before.contains(x));
                    let i = choose|i: int| 0 <= i < head.len() && head[i] == x;
                    assert(names[i] == x);
                } else {
                    assert(names[names.len() - 1] == x);
                }
            }
            if names.contains(x) && prefix.is_prefix_of(x) {
                let i = choose|i: int| 0 <= i < names.len() && names[i] == x;
                if i < head.len() {
                    assert(head[i] == x);
                    assert(head.contains(x));
                    let j = choose|j: int| 0 <= j < before.len() && before[j] == x;
                    assert(m[j] == x);
                } else {
                    assert(m[m.len() - 1] == x);
                }
            }
        }
    }
}

/// The names that the shell can complete: a snapshot, made once.
pub struct CommandTable {
    names: Vec<String>,
}

impl View for CommandTable {
    type V = Seq<Seq<char>>;

    closed spec fn view(&self) -> Seq<Seq<char>> {
        self.names.deep_view()
    }
}

/// Whether a list holds a name.
fn holds(names: &Vec<String>, name: &String) -> (r: bool)
    ensures
        r == names.deep_view().contains(name@),
{
    let mut i: usize = 0;
    while i < names.len()
        invariant
            i <= names.len(),
            forall|j: int| 0 <= j < i ==> names.deep_view()[j] != name@,
        decreases names.len() - i,
    {
        if names[i] == *name {
            assert(names.deep_view()[i as int] == name@);
            return true;
        }
        i += 1;
    }
    false
}

/// Adds the names of `more` that `names` does not hold yet.
fn add_names(names: &mut Vec<String>, more: &Vec<String>, Ghost(front): Ghost<Seq<Seq<char>>>)
    requires
        old(names).deep_view() == distinct(front),
    ensures
        final(names).deep_view() == distinct(front + more.deep_view()),
{
    let mut i: usize = 0;
    assert(front + more.deep_view().take(0) =~= front);
    while i < more.len()
        invariant
            i <= more.len(),
            names.deep_view() == distinct(front + more.deep_view().take(i as int)),
        decreases more.len() - i,
    {
        let ghost upto = front + more.deep_view().take(i + 1);
        assert(upto.drop_last() =~= front + more.deep_view().take(i as int));
        assert(upto.last() == more@[i as int]@);
        if !holds(names, &more[i]) {
            let ghost before = names.deep_view();
            names.push(more[i].clone());
            assert(names.deep_view() =~= before.push(more@[i as int]@));
        }
        i += 1;
    }
    assert(more.deep_view().take(more.len() as int) =~= more.deep_view());
}

impl CommandTable {
    /// The table of the builtins and the given programs.
    pub fn new(programs: &Vec<String>) -> (table: Self)
        ensures
            table@ == known_names(programs.deep_view()),
            table@.no_duplicates(),
    {
        let mut names: Vec<String> = Vec::new();
        let builtins = builtin_names();
        let ghost none = Seq::<Seq<char>>::empty();
        assert(names.deep_view() =~= distinct(none));
        add_names(&mut names, &builtins, Ghost(none));
        assert(none + builtins.deep_view() =~= builtin_name_list());
        add_names(&mut names, programs, Ghost(builtin_name_list()));
        proof {
            lemma_distinct(builtin_name_list() + programs.deep_view());
        }
        CommandTable { names }
    }

    /// The names of the table.
    pub fn names(&self) -> (r: &Vec<String>)
        ensures
            r.deep_view() == self@,
    {
        &self.names
    }

    /// The names of the table that begin with `prefix`, sorted: every such
    /// name and no other, in ascending order.
    pub fn candidates(&self, prefix: &str) -> (r: Vec<String>)
        ensures
            r.deep_view() == candidates(self@, prefix@),
            ascending(r.deep_view()),
            forall|x: Seq<char>|
                #![trigger r.deep_view().contains(x)]
                r.deep_view().contains(x) <==> self@.contains(x) && prefix@.is_prefix_of(x),
    {
        let p = chars_of(prefix);
        let mut found: Vec<String> = Vec::new();
        let mut i: usize = 0;
        assert(self@.take(0) =~= Seq::<Seq<char>>::empty());
        assert(found.deep_view() =~= Seq::<Seq<char>>::empty());
        while i < self.names.len()
            invariant
                i <= self.names.len(),
                p@ == prefix@,
                found.deep_view() == matching(self@.take(i as int), prefix@),
            decreases self.names.len() - i,
        {
            let ghost upto = self@.take(i + 1);
            assert(upto.drop_last() =~= self@.take(i as int));
            assert(upto.last() == self.names@[i as int]@);
            let name = chars_of(self.names[i].as_str());
            if chars_start_with(&name, &p) {
                let ghost before = found.deep_view();
                found.push(self.names[i].clone());
                assert(found.deep_view() =~= before.push(self.names@[i as int]@));
            }
            i += 1;
        }
        assert(self@.take(self.names.len() as int) =~= self@);
        proof {
            lemma_matching(self@, prefix@);
            lemma_ordered_sorts(matching(self@, prefix@));
        }
        sort_strings(&found)
    }
}

} // verus!
