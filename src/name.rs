//! Repository names: validated identifiers used as registry keys and as a single path segment.
use vstd::prelude::*;

verus! {

/// The largest number of characters a repository name may have.
pub const SIZE_LIMIT: usize = 100;

/// The characters a repository name may hold: ASCII letters and digits, `.` and `-`.
pub open spec fn is_name_char(c: char) -> bool {
    ('a' <= c && c <= 'z') || ('A' <= c && c <= 'Z') || ('0' <= c && c <= '9') || c == '.' || c
        == '-'
}

/// A valid name: at most `SIZE_LIMIT` characters, each one allowed.
pub open spec fn is_valid_name(s: Seq<char>) -> bool {
    &&& s.len() <= SIZE_LIMIT
    &&& forall|i: int| 0 <= i < s.len() ==> is_name_char(#[trigger] s[i])
}

/// What validation reports for `s`: the first disallowed character among the first
/// `SIZE_LIMIT`, else `TooBig` when the name is too long, else success.
pub open spec fn validation_outcome(s: Seq<char>, r: Result<(), InvalidRepoNameError>) -> bool {
    match r {
        Ok(()) => is_valid_name(s),
        Err(InvalidRepoNameError::InvalidChar { character, at_byte }) => {
            &&& at_byte < SIZE_LIMIT
            &&& at_byte < s.len()
            &&& s[at_byte as int] == character
            &&& !is_name_char(character)
            &&& forall|j: int| 0 <= j < at_byte ==> is_name_char(#[trigger] s[j])
        },
        Err(InvalidRepoNameError::TooBig { actual }) => {
            &&& actual == s.len()
            &&& s.len() > SIZE_LIMIT
            &&& forall|j: int| 0 <= j < SIZE_LIMIT ==> is_name_char(#[trigger] s[j])
        },
    }
}

/// Strict "less than" of two character sequences in lexicographic order.
pub open spec fn seq_lt(a: Seq<char>, b: Seq<char>) -> bool
    decreases a.len(),
{
    if a.len() == 0 {
        b.len() > 0
    } else if b.len() == 0 {
        false
    } else if a[0] != b[0] {
        a[0] < b[0]
    } else {
        seq_lt(a.drop_first(), b.drop_first())
    }
}

pub proof fn lemma_seq_lt_irreflexive(a: Seq<char>)
    ensures
        !seq_lt(a, a),
    decreases a.len(),
{
    if a.len() > 0 {
        lemma_seq_lt_irreflexive(a.drop_first());
    }
}

pub proof fn lemma_seq_lt_transitive(a: Seq<char>, b: Seq<char>, c: Seq<char>)
    requires
        seq_lt(a, b),
        seq_lt(b, c),
    ensures
        seq_lt(a, c),
    decreases a.len(),
{
    if a.len() > 0 && b.len() > 0 && c.len() > 0 {
        if a[0] == b[0] && b[0] == c[0] {
            lemma_seq_lt_transitive(a.drop_first(), b.drop_first(), c.drop_first());
        }
    }
}

pub proof fn lemma_seq_lt_total(a: Seq<char>, b: Seq<char>)
    requires
        a != b,
    ensures
        seq_lt(a, b) || seq_lt(b, a),
    decreases a.len(),
{
    if a.len() == 0 && b.len() == 0 {
        assert(a =~= b);
    } else if a.len() > 0 && b.len() > 0 && a[0] == b[0] {
        if a.drop_first() =~= b.drop_first() {
            assert forall|i: int| 0 <= i < a.len() implies a[i] == b[i] by {
                if i > 0 {
                    assert(a[i] == a.drop_first()[i - 1]);
                }
            }
            assert(a =~= b);
        } else {
            lemma_seq_lt_total(a.drop_first(), b.drop_first());
        }
    }
}

/// A name given to a repository.
#[derive(Debug)]
pub struct RepoName {
    inner: String,
}

/// Why a string is not a valid repository name.
#[derive(Debug, Clone, Copy, PartialEq, Eq, Structural)]
pub enum InvalidRepoNameError {
    /// The name has more than `SIZE_LIMIT` characters; `actual` is how many it has.
    TooBig { actual: usize },
    /// `character`, found at byte offset `at_byte`, is not allowed in a name.
    InvalidChar { character: char, at_byte: usize },
}

impl View for RepoName {
    type V = Seq<char>;

    closed spec fn view(&self) -> Seq<char> {
        self.inner@
    }
}

impl RepoName {
    #[verifier::type_invariant]
    closed spec fn inv(self) -> bool {
        is_valid_name(self.inner@)
    }

    /// Checks `name` against the rules for repository names.
    pub fn validate(name: &str) -> (r: Result<(), InvalidRepoNameError>)
        ensures
            validation_outcome(name@, r),
    {
        let len = name.unicode_len();
        let mut i: usize = 0;
        while i < len
            invariant
                len == name@.len(),
                i <= len,
                i <= SIZE_LIMIT,
                forall|j: int| 0 <= j < i ==> is_name_char(#[trigger] name@[j]),
            decreases len - i,
        {
            if i >= SIZE_LIMIT {
                return Err(InvalidRepoNameError::TooBig { actual: len });
            }
            let c = name.get_char(i);
            let ok = ('a' <= c && c <= 'z') || ('A' <= c && c <= 'Z') || ('0' <= c && c <= '9')
                || c == '.' || c == '-';
            if !ok {
                // Every earlier character is ASCII, so the character index is the byte offset.
                return Err(InvalidRepoNameError::InvalidChar { character: c, at_byte: i });
            }
            i = i + 1;
        }
        Ok(())
    }

    /// Validates `name` and takes it as a repository name.
    pub fn new(name: String) -> (r: Result<RepoName, InvalidRepoNameError>)
        ensures
            r is Ok <==> is_valid_name(name@),
            r matches Ok(n) ==> n@ == name@,
            r matches Err(e) ==> validation_outcome(name@, Err(e)),
    {
        match Self::validate(name.as_str()) {
            Ok(()) => Ok(RepoName { inner: name }),
            Err(e) => Err(e),
        }
    }

    /// Parses a repository name from text.
    pub fn parse(s: &str) -> (r: Result<RepoName, InvalidRepoNameError>)
        ensures
            r is Ok <==> is_valid_name(s@),
            r matches Ok(n) ==> n@ == s@,
            r matches Err(e) ==> validation_outcome(s@, Err(e)),
    {
        Self::new(s.to_owned())
    }

    pub fn as_str(&self) -> (r: &str)
        ensures
            r@ == self@,
            is_valid_name(r@),
    {
        proof {
            use_type_invariant(self);
        }
        self.inner.as_str()
    }

    /// The name as one segment of a filesystem path.
    pub fn as_single_path_segment(&self) -> (r: &str)
        ensures
            r@ == self@,
            is_valid_name(r@),
    {
        proof {
            use_type_invariant(self);
        }
        self.inner.as_str()
    }

    /// The name as text.
    pub fn to_string(&self) -> (r: String)
        ensures
            r@ == self@,
            is_valid_name(r@),
    {
        proof {
            use_type_invariant(self);
        }
        self.inner.clone()
    }

    /// Exact equality of two names.
    pub fn eq_name(&self, other: &RepoName) -> (r: bool)
        ensures
            r == (self@ == other@),
    {
        self.inner == other.inner
    }

    /// Whether `self` comes strictly before `other` in lexicographic order.
    pub fn less_than(&self, other: &RepoName) -> (r: bool)
        ensures
            r == seq_lt(self@, other@),
    {
        let a = self.inner.as_str();
        let b = other.inner.as_str();
        let la = a.unicode_len();
        let lb = b.unicode_len();
        let mut i: usize = 0;
        assert(self@.skip(0) =~= self@);
        assert(other@.skip(0) =~= other@);
        while i < la && i < lb
            invariant
                la == a@.len(),
                lb == b@.len(),
                i <= la,
                i <= lb,
                a@ == self@,
                b@ == other@,
                seq_lt(self@, other@) == seq_lt(self@.skip(i as int), other@.skip(i as int)),
            decreases la - i,
        {
            let ca = a.get_char(i);
            let cb = b.get_char(i);
            proof {
                let sa = self@.skip(i as int);
                let sb = other@.skip(i as int);
                assert(sa[0] == ca);
                assert(sb[0] == cb);
                assert(sa.drop_first() =~= self@.skip(i + 1));
                assert(sb.drop_first() =~= other@.skip(i + 1));
            }
            if ca != cb {
                return ca < cb;
            }
            i = i + 1;
        }
        i == la && i < lb
    }
}

impl Clone for RepoName {
    fn clone(&self) -> (r: RepoName)
        ensures
            r@ == self@,
    {
        proof {
            use_type_invariant(self);
        }
        RepoName { inner: self.inner.clone() }
    }
}

impl PartialEq for RepoName {
    fn eq(&self, other: &RepoName) -> (r: bool) {
        self.inner == other.inner
    }
}

impl vstd::std_specs::cmp::PartialEqSpecImpl for RepoName {
    open spec fn obeys_eq_spec() -> bool {
        true
    }

    open spec fn eq_spec(&self, other: &RepoName) -> bool {
        self@ == other@
    }
}

impl Eq for RepoName {

}

impl core::str::FromStr for RepoName {
    type Err = InvalidRepoNameError;

    fn from_str(s: &str) -> Result<RepoName, InvalidRepoNameError> {
        RepoName::parse(s)
    }
}

/// Parsing the text of a valid name succeeds and gives back that text: on a valid `s` the
/// only outcome validation may report is success.
pub proof fn lemma_name_round_trip(s: Seq<char>, r: Result<(), InvalidRepoNameError>)
    requires
        is_valid_name(s),
        validation_outcome(s, r),
    ensures
        r is Ok,
{
    match r {
        Ok(()) => {},
        Err(InvalidRepoNameError::InvalidChar { character, at_byte }) => {
            assert(is_name_char(s[at_byte as int]));
        },
        Err(InvalidRepoNameError::TooBig { actual }) => {},
    }
}

/// The name of a Git remote.
#[derive(Debug)]
pub struct RemoteName {
    inner: String,
}

impl View for RemoteName {
    type V = Seq<char>;

    closed spec fn view(&self) -> Seq<char> {
        self.inner@
    }
}

impl RemoteName {
    pub fn new(name: String) -> (r: RemoteName)
        ensures
            r@ == name@,
    {
        RemoteName { inner: name }
    }

    pub fn as_str(&self) -> (r: &str)
        ensures
            r@ == self@,
    {
        self.inner.as_str()
    }
}

} // verus!
