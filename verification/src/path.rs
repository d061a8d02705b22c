//! Names of archive entries, read as paths relative to the destination root.
//!
//! An entry name is a run of components separated by `/`. Empty components
//! and `.` carry no meaning and are dropped, so `a//b`, `a/./b` and `a/b/`
//! all name the same place, and a name that begins with `/` is read from
//! the destination root like any other. Every other component stands for
//! itself: `..` is kept as it is written and is not resolved here.

use vstd::prelude::*;
use vstd::string::*;

verus! {

/// The character that separates the components of an entry name.
pub open spec fn is_separator(c: char) -> bool {
    c == '/'
}

/// The first position at or after `start` that holds a separator, or the
/// length of `name` if there is none.
pub open spec fn component_end(name: Seq<char>, start: int) -> int
    decreases name.len() - start,
{
    if start < 0 || start >= name.len() || is_separator(name[start]) {
        start
    } else {
        component_end(name, start + 1)
    }
}

/// A component ends no earlier than it starts and no later than the name.
pub proof fn lemma_component_end_bounds(name: Seq<char>, start: int)
    requires
        0 <= start <= name.len(),
    ensures
        start <= component_end(name, start) <= name.len(),
        component_end(name, start) < name.len() ==> is_separator(
            name[component_end(name, start)],
        ),
        forall|i: int| start <= i < component_end(name, start) ==> !is_separator(name[i]),
    decreases name.len() - start,
{
    if start < name.len() && !is_separator(name[start]) {
        lemma_component_end_bounds(name, start + 1);
    }
}

/// Whether a piece between two separators is a component of the path.
pub open spec fn is_component(piece: Seq<char>) -> bool {
    piece.len() > 0 && piece != seq!['.']
}

/// Whether `piece` can stand as one level of a path: it is a component, and
/// no separator is inside it.
pub open spec fn is_plain(piece: Seq<char>) -> bool {
    is_component(piece) && forall|i: int| 0 <= i < piece.len() ==> !is_separator(#[trigger] piece[i])
}

/// Whether every component of `path` can stand as one level of it.
pub open spec fn is_path(path: Seq<Seq<char>>) -> bool {
    forall|i: int| 0 <= i < path.len() ==> is_plain(#[trigger] path[i])
}

/// The components of `name` that begin at or after `start`.
pub open spec fn components_from(name: Seq<char>, start: int) -> Seq<Seq<char>>
    decreases name.len() - start,
{
    if start < 0 || start >= name.len() {
        Seq::empty()
    } else {
        let end = component_end(name, start);
        let piece = name.subrange(start, end);
        proof {
            lemma_component_end_bounds(name, start);
        }
        let rest = if end < name.len() {
            components_from(name, end + 1)
        } else {
            Seq::empty()
        };
        if is_component(piece) {
            seq![piece] + rest
        } else {
            rest
        }
    }
}

/// The path that an entry name denotes: its components, first to last.
pub open spec fn components(name: Seq<char>) -> Seq<Seq<char>> {
    components_from(name, 0)
}

/// Whatever the name, each of its components can stand as one level of a path.
pub proof fn lemma_components_are_plain(name: Seq<char>, start: int)
    requires
        0 <= start,
    ensures
        is_path(components_from(name, start)),
    decreases name.len() - start,
{
    if start < name.len() {
        let end = component_end(name, start);
        let piece = name.subrange(start, end);
        lemma_component_end_bounds(name, start);
        if end < name.len() {
            lemma_components_are_plain(name, end + 1);
        }
        let rest = if end < name.len() {
            components_from(name, end + 1)
        } else {
            Seq::empty()
        };
        if is_component(piece) {
            assert(is_plain(piece)) by {
                assert forall|i: int| 0 <= i < piece.len() implies !is_separator(
                    #[trigger] piece[i],
                ) by {
                    assert(piece[i] == name[start + i]);
                }
            }
            let all = seq![piece] + rest;
            assert forall|i: int| 0 <= i < all.len() implies is_plain(#[trigger] all[i]) by {
                if i > 0 {
                    assert(all[i] == rest[i - 1]);
                }
            }
        }
    }
}

/// The position of the last `.` in `component`, or -1 if it holds none.
pub open spec fn last_dot(component: Seq<char>) -> int
    decreases component.len(),
{
    if component.len() == 0 {
        -1
    } else if component.last() == '.' {
        component.len() - 1
    } else {
        last_dot(component.drop_last())
    }
}

/// The extension of a single component: what follows its last `.`, unless
/// the component is `..`, holds no `.`, or holds its only `.` in front.
pub open spec fn component_extension(component: Seq<char>) -> Option<Seq<char>> {
    let dot = last_dot(component);
    if component == seq!['.', '.'] || dot <= 0 {
        None
    } else {
        Some(component.subrange(dot + 1, component.len() as int))
    }
}

/// The extension of a path: that of its last component.
pub open spec fn extension_of(path: Seq<Seq<char>>) -> Option<Seq<char>> {
    if path.len() == 0 {
        None
    } else {
        component_extension(path.last())
    }
}

/// The directory that holds a path, if the path has a last component to drop.
pub open spec fn parent_of(path: Seq<Seq<char>>) -> Option<Seq<Seq<char>>> {
    if path.len() == 0 {
        None
    } else {
        Some(path.drop_last())
    }
}

/// Whether `extension` is one of `protected`.
pub open spec fn is_protected(extension: Option<Seq<char>>, protected: Seq<Seq<char>>) -> bool {
    extension matches Some(e) && protected.contains(e)
}

/// The components of a path written out with `/` between them.
pub open spec fn joined(path: Seq<Seq<char>>) -> Seq<char>
    decreases path.len(),
{
    if path.len() == 0 {
        Seq::empty()
    } else if path.len() == 1 {
        path[0]
    } else {
        joined(path.drop_last()) + seq!['/'] + path.last()
    }
}

/// A name that holds no separator is read as itself, if it can stand as a
/// level of a path, and as nothing otherwise.
pub proof fn lemma_components_of_piece(name: Seq<char>, start: int)
    requires
        0 <= start <= name.len(),
        forall|i: int| start <= i < name.len() ==> !is_separator(#[trigger] name[i]),
    ensures
        component_end(name, start) == name.len(),
        components_from(name, start) == if is_component(name.subrange(start, name.len() as int)) {
            seq![name.subrange(start, name.len() as int)]
        } else {
            Seq::empty()
        },
    decreases name.len() - start,
{
    if start < name.len() {
        lemma_components_of_piece(name, start + 1);
        let piece = name.subrange(start, name.len() as int);
        assert(seq![piece] + Seq::<Seq<char>>::empty() =~= seq![piece]);
    } else {
        assert(name.subrange(start, name.len() as int).len() == 0);
    }
}

/// A name that ends in a separator and one more level is read as what
/// stands before the separator, and then that level.
pub proof fn lemma_components_of_appended(head: Seq<char>, last: Seq<char>, start: int)
    requires
        0 <= start <= head.len(),
        is_plain(last),
    ensures
        components_from(head + seq!['/'] + last, start) == components_from(head, start) + seq![
            last,
        ],
    decreases head.len() - start,
{
    let name = head + seq!['/'] + last;
    let tail: int = head.len() as int + 1;
    assert(name[head.len() as int] == '/');
    assert forall|i: int| tail <= i < name.len() implies !is_separator(#[trigger] name[i]) by {
        assert(name[i] == last[i - tail]);
    }
    lemma_components_of_piece(name, tail);
    assert(name.subrange(tail, name.len() as int) =~= last);
    assert(components_from(name, tail) == seq![last]);
    if start < head.len() {
        lemma_component_end_bounds(head, start);
        lemma_component_end_bounds(name, start);
        let end = component_end(head, start);
        assert(component_end(name, start) == end) by {
            assert forall|i: int| start <= i < end implies name[i] == head[i] by {}
            if end < head.len() {
                assert(name[end] == head[end]);
            }
            let other = component_end(name, start);
            if other < end {
                assert(name[other] == head[other]);
            }
            if end < other {
                assert(!is_separator(name[end]));
            }
        }
        assert(name.subrange(start, end) =~= head.subrange(start, end));
        let piece = head.subrange(start, end);
        if end < head.len() {
            lemma_components_of_appended(head, last, end + 1);
            assert((seq![piece] + components_from(head, end + 1)) + seq![last] =~= seq![piece] + (
            components_from(head, end + 1) + seq![last]));
        } else {
            assert(Seq::<Seq<char>>::empty() + seq![last] =~= seq![last]);
            assert((seq![piece] + Seq::<Seq<char>>::empty()) + seq![last] =~= seq![piece] + seq![
                last,
            ]);
        }
    } else {
        assert(component_end(name, start) == start);
        assert(name.subrange(start, start).len() == 0);
        assert(Seq::<Seq<char>>::empty() + seq![last] =~= seq![last]);
    }
}

/// A path written out and read again is the same path: the written form
/// names one place.
pub proof fn lemma_written_path_reads_back(path: Seq<Seq<char>>)
    requires
        is_path(path),
    ensures
        components(joined(path)) == path,
    decreases path.len(),
{
    if path.len() == 0 {
    } else if path.len() == 1 {
        let only = path[0];
        assert(is_plain(only));
        lemma_components_of_piece(only, 0);
        assert(only.subrange(0, only.len() as int) =~= only);
        assert(seq![only] =~= path);
    } else {
        let init = path.drop_last();
        assert(is_path(init)) by {
            assert forall|i: int| 0 <= i < init.len() implies is_plain(#[trigger] init[i]) by {
                assert(init[i] == path[i]);
            }
        }
        assert(is_plain(path.last()));
        lemma_written_path_reads_back(init);
        lemma_components_of_appended(joined(init), path.last(), 0);
        assert(init + seq![path.last()] =~= path);
    }
}

/// A path relative to the destination root, as a list of components.
#[derive(Debug, PartialEq, Eq)]
pub struct EntryPath {
    components: Vec<String>,
}

impl View for EntryPath {
    type V = Seq<Seq<char>>;

    closed spec fn view(&self) -> Seq<Seq<char>> {
        Seq::new(self.components@.len(), |i: int| self.components@[i]@)
    }
}

impl EntryPath {
    #[verifier::type_invariant]
    spec fn well_formed(&self) -> bool {
        is_path(self@)
    }

    /// Reads an entry name as a path.
    pub fn parse(name: &str) -> (path: EntryPath)
        ensures
            path@ == components(name@),
            is_path(path@),
    {
        let n = name.unicode_len();
        let mut parts: Vec<String> = Vec::new();
        let mut start: usize = 0;
        while start < n
            invariant
                n == name@.len(),
                start <= n,
                components(name@) == Seq::new(parts@.len(), |i: int| parts@[i]@) + components_from(
                    name@,
                    start as int,
                ),
            decreases n - start,
        {
            let ghost before = Seq::new(parts@.len(), |i: int| parts@[i]@);
            let mut end: usize = start;
            while end < n && name.get_char(end) != '/'
                invariant
                    n == name@.len(),
                    start <= end <= n,
                    component_end(name@, start as int) == component_end(name@, end as int),
                decreases n - end,
            {
                end = end + 1;
            }
            let piece = name.substring_char(start, end);
            let keep = end > start && !(end - start == 1 && name.get_char(start) == '.');
            proof {
                assert(piece@ == name@.subrange(start as int, end as int));
                assert(seq!['.'].len() == 1 && seq!['.'][0] == '.');
                if end - start == 1 {
                    assert(piece@[0] == name@[start as int]);
                    if name@[start as int] == '.' {
                        assert(piece@ =~= seq!['.']);
                    }
                }
                assert(keep == is_component(piece@));
            }
            let ghost rest = if end < n {
                components_from(name@, end as int + 1)
            } else {
                Seq::empty()
            };
            if keep {
                parts.push(piece.to_owned());
                proof {
                    assert(Seq::new(parts@.len(), |i: int| parts@[i]@) =~= before + seq![piece@]);
                    assert((before + seq![piece@]) + rest =~= before + (seq![piece@] + rest));
                }
            }
            if end == n {
                start = n;
            } else {
                start = end + 1;
            }
        }
        proof {
            assert(components_from(name@, n as int) =~= Seq::empty());
            assert(Seq::new(parts@.len(), |i: int| parts@[i]@) + Seq::<Seq<char>>::empty() =~= Seq::new(
                parts@.len(),
                |i: int| parts@[i]@,
            ));
            lemma_components_are_plain(name@, 0);
        }
        EntryPath { components: parts }
    }

    /// The number of components. A path of none is the destination root.
    pub fn len(&self) -> (n: usize)
        ensures
            n == self@.len(),
    {
        self.components.len()
    }

    /// The component at `index`: one level of the path, with no separator in it.
    pub fn component(&self, index: usize) -> (c: &str)
        requires
            index < self@.len(),
        ensures
            c@ == self@[index as int],
            is_plain(c@),
    {
        proof {
            use_type_invariant(self);
        }
        self.components[index].as_str()
    }

    /// A copy of this path.
    pub fn duplicate(&self) -> (copy: EntryPath)
        ensures
            copy@ == self@,
            is_path(copy@),
    {
        let mut parts: Vec<String> = Vec::new();
        let n = self.components.len();
        let mut i: usize = 0;
        while i < n
            invariant
                n == self.components@.len(),
                i <= n,
                parts@.len() == i,
                forall|j: int| 0 <= j < i ==> parts@[j]@ == self.components@[j]@,
            decreases n - i,
        {
            parts.push(self.components[i].clone());
            i = i + 1;
        }
        proof {
            use_type_invariant(self);
            assert(Seq::new(parts@.len(), |i: int| parts@[i]@) =~= self@);
        }
        let copy = EntryPath { components: parts };
        copy
    }

    /// The directory that holds this path; none for the destination root.
    pub fn parent(&self) -> (dir: Option<EntryPath>)
        ensures
            match dir {
                Some(d) => parent_of(self@) == Some(d@) && is_path(d@),
                None => parent_of(self@) is None,
            },
    {
        let n = self.components.len();
        if n == 0 {
            return None;
        }
        let mut parts: Vec<String> = Vec::new();
        let mut i: usize = 0;
        while i < n - 1
            invariant
                n == self.components@.len(),
                n > 0,
                i <= n - 1,
                parts@.len() == i,
                forall|j: int| 0 <= j < i ==> parts@[j]@ == self.components@[j]@,
            decreases n - i,
        {
            parts.push(self.components[i].clone());
            i = i + 1;
        }
        proof {
            use_type_invariant(self);
            assert(Seq::new(parts@.len(), |i: int| parts@[i]@) =~= self@.drop_last());
        }
        let dir = EntryPath { components: parts };
        Some(dir)
    }

    /// The extension of the last component, without its dot.
    pub fn extension(&self) -> (ext: Option<String>)
        ensures
            match ext {
                Some(e) => extension_of(self@) == Some(e@),
                None => extension_of(self@) is None,
            },
    {
        let count = self.components.len();
        if count == 0 {
            return None;
        }
        let last = self.components[count - 1].as_str();
        assert(last@ == self@.last());
        let n = last.unicode_len();
        let mut i: usize = n;
        assert(last@.take(n as int) =~= last@);
        while i > 0 && last.get_char(i - 1) != '.'
            invariant
                n == last@.len(),
                i <= n,
                last_dot(last@) == last_dot(last@.take(i as int)),
            decreases i,
        {
            assert(last@.take(i as int).drop_last() =~= last@.take(i as int - 1));
            i = i - 1;
        }
        proof {
            if i > 0 {
                assert(last@.take(i as int).last() == '.');
            }
            assert(last_dot(last@) == i as int - 1);
        }
        if i <= 1 {
            return None;
        }
        if n == 2 && last.get_char(0) == '.' {
            assert(last@ =~= seq!['.', '.']);
            return None;
        }
        proof {
            if last@ == seq!['.', '.'] {
                assert(last@.len() == 2);
                assert(last@[0] == '.');
            }
        }
        Some(last.substring_char(i, n).to_owned())
    }

    /// The path written out with `/` between its components. Read
    /// again, the text gives this path.
    pub fn render(&self) -> (text: String)
        ensures
            text@ == joined(self@),
            components(text@) == self@,
    {
        let mut text = String::new();
        let n = self.components.len();
        let mut i: usize = 0;
        while i < n
            invariant
                n == self.components@.len(),
                i <= n,
                text@ == joined(self@.take(i as int)),
            decreases n - i,
        {
            proof {
                assert(self@.take(i as int + 1).drop_last() =~= self@.take(i as int));
                assert(self@.take(i as int + 1).last() == self.components@[i as int]@);
            }
            if i > 0 {
                text.append("/");
                proof {
                    reveal_strlit("/");
                    assert("/"@ =~= seq!['/']);
                }
            } else {
                assert(joined(self@.take(0)) =~= Seq::<char>::empty());
                assert(Seq::<char>::empty() + self.components@[0]@ =~= self.components@[0]@);
            }
            text.append(self.components[i].as_str());
            i = i + 1;
        }
        proof {
            assert(self@.take(n as int) =~= self@);
            use_type_invariant(self);
            lemma_written_path_reads_back(self@);
        }
        text
    }

    /// Whether the extension of this path is one of `protected`.
    pub fn has_protected_extension(&self, protected: &Vec<String>) -> (yes: bool)
        ensures
            yes == is_protected(extension_of(self@), extensions_view(protected)),
    {
        match self.extension() {
            None => false,
            Some(ext) => {
                let n = protected.len();
                let mut i: usize = 0;
                while i < n
                    invariant
                        n == protected@.len(),
                        i <= n,
                        extension_of(self@) == Some(ext@),
                        forall|j: int| 0 <= j < i ==> extensions_view(protected)[j] != ext@,
                    decreases n - i,
                {
                    if protected[i] == ext {
                        assert(extensions_view(protected)[i as int] == ext@);
                        assert(extensions_view(protected).contains(ext@));
                        return true;
                    }
                    i = i + 1;
                }
                false
            },
        }
    }
}

/// What a list of extensions holds.
pub open spec fn extensions_view(list: &Vec<String>) -> Seq<Seq<char>> {
    Seq::new(list@.len(), |i: int| list@[i]@)
}

} // verus!
