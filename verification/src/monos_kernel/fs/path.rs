use vstd::prelude::*;

verus! {

/// The index of the first `/` in a path.
pub open spec fn first_slash(s: Seq<char>) -> Option<int>
    decreases s.len(),
{
    if s.len() == 0 {
        None
    } else if s[0] == '/' {
        Some(0)
    } else {
        match first_slash(s.drop_first()) {
            Some(i) => Some(i + 1),
            None => None,
        }
    }
}

/// The index of the last `/` in a path.
pub open spec fn last_slash(s: Seq<char>) -> Option<int>
    decreases s.len(),
{
    if s.len() == 0 {
        None
    } else if s.last() == '/' {
        Some(s.len() - 1)
    } else {
        last_slash(s.drop_last())
    }
}

/// What follows the last `/` (the whole path if it has none).
pub open spec fn spec_file_name(s: Seq<char>) -> Seq<char> {
    match last_slash(s) {
        Some(i) => s.skip(i + 1),
        None => s,
    }
}

/// The component before the last one, if there is a `/`.
pub open spec fn spec_parent(s: Seq<char>) -> Option<Seq<char>> {
    match last_slash(s) {
        Some(i) => Some(spec_file_name(s.take(i))),
        None => None,
    }
}

pub proof fn lemma_first_slash(s: Seq<char>)
    ensures
        match first_slash(s) {
            Some(i) => 0 <= i < s.len() && s[i] == '/' && forall|j: int| 0 <= j < i ==> s[j] != '/',
            None => forall|j: int| 0 <= j < s.len() ==> s[j] != '/',
        },
    decreases s.len(),
{
    if s.len() > 0 {
        lemma_first_slash(s.drop_first());
        assert forall|j: int| 1 <= j < s.len() implies s[j] == s.drop_first()[j - 1] by {}
    }
}

/// The two parts `enter` splits a path into, joined again by a `/`, give the path.
pub proof fn lemma_enter_rejoins(s: Seq<char>)
    ensures
        match first_slash(s) {
            Some(i) => s.take(i) + seq!['/'] + s.skip(i + 1) == s,
            None => true,
        },
{
    lemma_first_slash(s);
    match first_slash(s) {
        Some(i) => {
            assert(s.take(i) + seq!['/'] + s.skip(i + 1) =~= s);
        },
        None => {},
    }
}

proof fn lemma_last_slash(s: Seq<char>)
    ensures
        match last_slash(s) {
            Some(i) => 0 <= i < s.len() && s[i] == '/' && forall|j: int| i < j < s.len() ==> s[j] != '/',
            None => forall|j: int| 0 <= j < s.len() ==> s[j] != '/',
        },
    decreases s.len(),
{
    if s.len() > 0 {
        lemma_last_slash(s.drop_last());
        assert forall|j: int| 0 <= j < s.len() - 1 implies s[j] == s.drop_last()[j] by {}
    }
}

/// A path into the file system tree, with `/` between its components.
pub struct Path<'p>(pub &'p str);

/// A path that owns its text.
pub struct PathBuf(pub String);

/// The index of the last `/` in `s`, searched for from the end.
fn find_last_slash(s: &str) -> (r: Option<usize>)
    ensures
        match last_slash(s@) {
            Some(i) => 0 <= i < s@.len() && r == Some(i as usize),
            None => r is None,
        },
        r matches Some(i) ==> i < s@.len() && s@[i as int] == '/' && last_slash(s@) == Some(
            i as int,
        ),
{
    proof {
        lemma_last_slash(s@);
    }
    let mut i = s.unicode_len();
    while i > 0
        invariant
            i <= s@.len(),
            forall|j: int| i <= j < s@.len() ==> s@[j] != '/',
            match last_slash(s@) {
                Some(k) => 0 <= k < s@.len() && s@[k] == '/' && forall|j: int|
                    k < j < s@.len() ==> s@[j] != '/',
                None => forall|j: int| 0 <= j < s@.len() ==> s@[j] != '/',
            },
        decreases i,
    {
        if s.get_char(i - 1) == '/' {
            return Some(i - 1);
        }
        i = i - 1;
    }
    None
}

impl<'p> Path<'p> {
    pub fn new(path: &'p str) -> (r: Path<'p>)
        ensures
            r.0@ == path@,
    {
        Path(path)
    }

    pub fn as_str(&self) -> (r: &str)
        ensures
            r@ == self.0@,
    {
        self.0
    }

    /// The last component of the path.
    pub fn file_name(&self) -> (r: Option<&str>)
        ensures
            r is Some,
            r.unwrap()@ == spec_file_name(self.0@),
    {
        let len = self.0.unicode_len();
        match find_last_slash(self.0) {
            Some(i) => {
                let n = self.0.substring_char(i + 1, len);
                assert(n@ =~= self.0@.skip(i + 1));
                Some(n)
            },
            None => Some(self.0),
        }
    }

    /// The component before the last one, if the path has a `/`.
    pub fn parent(&self) -> (r: Option<Path<'_>>)
        ensures
            match spec_parent(self.0@) {
                Some(p) => r is Some && r.unwrap().0@ == p,
                None => r is None,
            },
    {
        match find_last_slash(self.0) {
            Some(i) => {
                let before = self.0.substring_char(0, i);
                let start = match find_last_slash(before) {
                    Some(j) => j + 1,
                    None => 0,
                };
                proof {
                    assert(before@ =~= self.0@.take(i as int));
                }
                let p = before.substring_char(start, i);
                assert(p@ =~= spec_file_name(before@));
                Some(Path(p))
            },
            None => None,
        }
    }

    /// The first component and the rest of the path, split at the first `/`.
    pub fn enter(&self) -> (r: Option<(Path<'_>, Path<'_>)>)
        ensures
            match first_slash(self.0@) {
                Some(i) => r is Some && r.unwrap().0.0@ == self.0@.take(i) && r.unwrap().1.0@
                    == self.0@.skip(i + 1),
                None => r is None,
            },
    {
        proof {
            lemma_first_slash(self.0@);
        }
        let len = self.0.unicode_len();
        let mut i: usize = 0;
        while i < len
            invariant
                len == self.0@.len(),
                i <= len,
                forall|j: int| 0 <= j < i ==> self.0@[j] != '/',
                match first_slash(self.0@) {
                    Some(k) => 0 <= k < self.0@.len() && self.0@[k] == '/' && forall|j: int|
                        0 <= j < k ==> self.0@[j] != '/',
                    None => forall|j: int| 0 <= j < self.0@.len() ==> self.0@[j] != '/',
                },
            decreases len - i,
        {
            if self.0.get_char(i) == '/' {
                let first = self.0.substring_char(0, i);
                let second = self.0.substring_char(i + 1, len);
                return Some((Path(first), Path(second)));
            }
            i = i + 1;
        }
        None
    }

    pub fn to_path_buf(&self) -> (r: PathBuf)
        ensures
            r.0@ == self.0@,
    {
        PathBuf(String::from_str(self.0))
    }
}

impl PathBuf {
    pub fn new() -> (r: PathBuf)
        ensures
            r.0@.len() == 0,
    {
        PathBuf(String::new())
    }

    /// Appends a component, with a `/` before it unless it starts with one.
    pub fn child(&mut self, path: &str)
        ensures
            path@.len() > 0 && path@[0] == '/' ==> final(self).0@ == old(self).0@ + path@,
            !(path@.len() > 0 && path@[0] == '/') ==> final(self).0@ == old(self).0@ + seq!['/']
                + path@,
    {
        let starts = path.unicode_len() > 0 && path.get_char(0) == '/';
        if !starts {
            let slash = "/";
            proof {
                reveal_strlit("/");
            }
            self.0.append(slash);
        }
        self.0.append(path);
    }

    pub fn as_path(&self) -> (r: Path<'_>)
        ensures
            r.0@ == self.0@,
    {
        Path(self.0.as_str())
    }
}

} // verus!
